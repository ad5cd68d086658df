//! The serial port's settings.

use vstd::prelude::*;

verus! {

/// The data bits of the serial port where the configuration names none.
pub const DATABITS_DEFAULT: u8 = 8;

/// The stop bits of the serial port where the configuration names none.
pub const STOPBITS_DEFAULT: u8 = 1;

/// The data bits of the serial port where the configuration names none.
pub fn databits_default() -> (res: u8)
    ensures
        res == DATABITS_DEFAULT,
{
    DATABITS_DEFAULT
}

/// The stop bits of the serial port where the configuration names none.
pub fn stopbits_default() -> (res: u8)
    ensures
        res == STOPBITS_DEFAULT,
{
    STOPBITS_DEFAULT
}

/// The parity of the serial port.
#[derive(Debug, Clone, Copy, PartialEq, Eq)]
pub enum Parity {
    NoParity,
    Even,
    Odd,
    Mark,
    Space,
}

impl Default for Parity {
    fn default() -> (res: Self)
        ensures
            res == Parity::NoParity,
    {
        Parity::NoParity
    }
}

/// The settings of the serial port.
#[derive(Debug, Clone, PartialEq, Eq)]
pub struct SerialConf {
    pub path: String,
    pub baudrate: u32,
    pub parity: Parity,
    pub databits: u8,
    pub stopbits: u8,
}

impl SerialConf {
    /// The settings that a configuration gives: the path and the baud rate
    /// as they are, and for each of the rest its default where the
    /// configuration names none.
    pub fn new(
        path: String,
        baudrate: u32,
        parity: Option<Parity>,
        databits: Option<u8>,
        stopbits: Option<u8>,
    ) -> (res: Self)
        ensures
            res.path == path,
            res.baudrate == baudrate,
            res.parity == match parity {
                Some(p) => p,
                None => Parity::NoParity,
            },
            res.databits == match databits {
                Some(n) => n,
                None => DATABITS_DEFAULT,
            },
            res.stopbits == match stopbits {
                Some(n) => n,
                None => STOPBITS_DEFAULT,
            },
    {
        SerialConf {
            path,
            baudrate,
            parity: match parity {
                Some(p) => p,
                None => Parity::default(),
            },
            databits: match databits {
                Some(n) => n,
                None => databits_default(),
            },
            stopbits: match stopbits {
                Some(n) => n,
                None => stopbits_default(),
            },
        }
    }
}

} // verus!
