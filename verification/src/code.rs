//! Records exchanged with the sensor board: a letter, a number and an ordered
//! list of parameters.

use vstd::prelude::*;
use crate::search::{first_index, lemma_first_index_is, lemma_first_index_none};
use vstd::string::StringSliceAdditionalSpecFns;

verus! {

/// The letter `D`.
pub const LETTER_D: u8 = 68;

/// The letter `E`.
pub const LETTER_E: u8 = 69;

/// The letter `M`.
pub const LETTER_M: u8 = 77;

/// The letter `N`.
pub const LETTER_N: u8 = 78;

/// The letter `O`.
pub const LETTER_O: u8 = 79;

/// The letter `R`.
pub const LETTER_R: u8 = 82;

/// The letter `S`.
pub const LETTER_S: u8 = 83;

/// The letter `T`.
pub const LETTER_T: u8 = 84;

/// The letter `U`.
pub const LETTER_U: u8 = 85;

/// The letter `V`.
pub const LETTER_V: u8 = 86;

/// What one parameter carries.
///
/// A 32-bit float is held by its IEEE-754 bit pattern, so that it is kept bit
/// for bit and compared exactly.
#[derive(Debug, PartialEq, Eq)]
pub enum ParamValue {
    Int(i32),
    Float(u32),
    Bytes(Vec<u8>),
}

/// The mathematical value of a [`ParamValue`].
pub ghost enum ValueModel {
    Int(i32),
    Float(u32),
    Bytes(Seq<u8>),
}

impl View for ParamValue {
    type V = ValueModel;

    open spec fn view(&self) -> ValueModel {
        match *self {
            ParamValue::Int(v) => ValueModel::Int(v),
            ParamValue::Float(bits) => ValueModel::Float(bits),
            ParamValue::Bytes(bytes) => ValueModel::Bytes(bytes@),
        }
    }
}

impl ValueModel {
    /// The integer carried, if the value is an integer.
    pub open spec fn int_value(self) -> Option<i32> {
        match self {
            ValueModel::Int(v) => Some(v),
            _ => None,
        }
    }

    /// The float's bit pattern, if the value is a float.
    pub open spec fn float_bits(self) -> Option<u32> {
        match self {
            ValueModel::Float(bits) => Some(bits),
            _ => None,
        }
    }

    /// The bytes carried, if the value is a byte string.
    pub open spec fn bytes(self) -> Option<Seq<u8>> {
        match self {
            ValueModel::Bytes(b) => Some(b),
            _ => None,
        }
    }

    /// The integer carried, if it is one that fits in eight unsigned bits.
    pub open spec fn small_int(self) -> Option<u8> {
        match self {
            ValueModel::Int(v) if 0 <= v <= 255 => Some(v as u8),
            _ => None,
        }
    }
}

impl Clone for ParamValue {
    fn clone(&self) -> (res: Self)
        ensures
            res@ == self@,
    {
        match self {
            ParamValue::Int(v) => ParamValue::Int(*v),
            ParamValue::Float(bits) => ParamValue::Float(*bits),
            ParamValue::Bytes(bytes) => ParamValue::Bytes(bytes.clone()),
        }
    }
}

impl ParamValue {
    /// A byte-string value holding the UTF-8 bytes of `text`.
    pub fn str(text: &str) -> (res: Self)
        ensures
            res@ == ValueModel::Bytes(text.spec_bytes()),
    {
        ParamValue::Bytes(vstd::slice::slice_to_vec(text.as_bytes()))
    }

    /// The integer carried, if the value is an integer.
    pub fn as_int(&self) -> (res: Option<i32>)
        ensures
            res == self@.int_value(),
    {
        match self {
            ParamValue::Int(v) => Some(*v),
            _ => None,
        }
    }

    /// The integer carried, if it is one that fits in eight unsigned bits.
    pub fn as_u8(&self) -> (res: Option<u8>)
        ensures
            res == self@.small_int(),
    {
        match self {
            ParamValue::Int(v) => {
                if 0 <= *v && *v <= 255 {
                    Some(*v as u8)
                } else {
                    None
                }
            },
            _ => None,
        }
    }

    /// The float's bit pattern, if the value is a float.
    pub fn as_float_bits(&self) -> (res: Option<u32>)
        ensures
            res == self@.float_bits(),
    {
        match self {
            ParamValue::Float(bits) => Some(*bits),
            _ => None,
        }
    }

    /// The bytes carried, if the value is a byte string.
    pub fn as_bytes(&self) -> (res: Option<&Vec<u8>>)
        ensures
            match res {
                Some(b) => self@.bytes() == Some(b@),
                None => self@.bytes().is_none(),
            },
    {
        match self {
            ParamValue::Bytes(b) => Some(b),
            _ => None,
        }
    }
}

/// One parameter of a record: a letter and the value it carries.
#[derive(Debug, PartialEq, Eq)]
pub struct Param {
    pub letter: u8,
    pub value: ParamValue,
}

/// The mathematical value of a [`Param`].
pub ghost struct ParamModel {
    pub letter: u8,
    pub value: ValueModel,
}

impl View for Param {
    type V = ParamModel;

    open spec fn view(&self) -> ParamModel {
        ParamModel { letter: self.letter, value: self.value@ }
    }
}

impl Clone for Param {
    fn clone(&self) -> (res: Self)
        ensures
            res@ == self@,
    {
        Param { letter: self.letter, value: self.value.clone() }
    }
}

/// One record of the station protocol.
#[derive(Debug, PartialEq, Eq)]
pub struct Code {
    pub letter: u8,
    pub number: u8,
    pub params: Vec<Param>,
}

/// The mathematical value of a [`Code`]: parameters in wire order.
pub ghost struct CodeModel {
    pub letter: u8,
    pub number: u8,
    pub params: Seq<ParamModel>,
}

/// The test that a parameter bears this letter.
pub open spec fn has_letter(letter: u8) -> spec_fn(ParamModel) -> bool {
    |p: ParamModel| p.letter == letter
}

impl CodeModel {
    /// The identity of a record for acknowledgement purposes.
    pub open spec fn key(self) -> (u8, u8) {
        (self.letter, self.number)
    }

    /// The position of the first parameter with this letter.
    pub open spec fn position(self, letter: u8) -> Option<int> {
        first_index(self.params, has_letter(letter))
    }

    /// The first parameter with this letter.
    pub open spec fn find(self, letter: u8) -> Option<ParamModel> {
        match self.position(letter) {
            Some(at) => Some(self.params[at]),
            None => None,
        }
    }

    /// The first parameter of the record.
    pub open spec fn first(self) -> Option<ParamModel> {
        if self.params.len() > 0 {
            Some(self.params[0])
        } else {
            None
        }
    }
}

impl View for Code {
    type V = CodeModel;

    open spec fn view(&self) -> CodeModel {
        CodeModel {
            letter: self.letter,
            number: self.number,
            params: Seq::new(self.params@.len(), |i: int| self.params@[i]@),
        }
    }
}

impl Clone for Code {
    fn clone(&self) -> (res: Self)
        ensures
            res@ == self@,
    {
        let mut params: Vec<Param> = Vec::new();
        let mut i: usize = 0;
        while i < self.params.len()
            invariant
                i <= self.params.len(),
                params.len() == i,
                forall|j: int| 0 <= j < i ==> params@[j]@ == self.params@[j]@,
            decreases self.params.len() - i,
        {
            params.push(self.params[i].clone());
            i += 1;
        }
        let res = Code { letter: self.letter, number: self.number, params };
        assert(res@.params =~= self@.params);
        res
    }
}

impl Code {
    /// A record without parameters.
    pub fn new(letter: u8, number: u8) -> (res: Self)
        ensures
            res@ == (CodeModel { letter, number, params: Seq::empty() }),
    {
        let res = Code { letter, number, params: Vec::new() };
        assert(res@.params =~= Seq::empty());
        res
    }

    /// The same record with one more parameter at its end.
    pub fn with(self, letter: u8, value: ParamValue) -> (res: Self)
        ensures
            res@ == (CodeModel {
                params: self@.params.push(ParamModel { letter, value: value@ }),
                ..self@
            }),
    {
        let mut params = self.params;
        params.push(Param { letter, value });
        let res = Code { letter: self.letter, number: self.number, params };
        assert(res@.params =~= self@.params.push(ParamModel { letter, value: value@ }));
        res
    }

    /// The identity of the record for acknowledgement purposes.
    pub fn key(&self) -> (res: (u8, u8))
        ensures
            res == self@.key(),
    {
        (self.letter, self.number)
    }

    /// The first parameter with this letter.
    pub fn find(&self, letter: u8) -> (res: Option<&Param>)
        ensures
            match res {
                Some(p) => self@.find(letter) == Some(p@),
                None => self@.find(letter).is_none(),
            },
    {
        let ghost pred = has_letter(letter);
        let mut i: usize = 0;
        while i < self.params.len()
            invariant
                i <= self.params.len(),
                pred == has_letter(letter),
                forall|j: int| 0 <= j < i ==> !pred(#[trigger] self@.params[j]),
            decreases self.params.len() - i,
        {
            if self.params[i].letter == letter {
                proof {
                    lemma_first_index_is(self@.params, pred, i as int);
                }
                return Some(&self.params[i]);
            }
            i += 1;
        }
        proof {
            lemma_first_index_none(self@.params, pred);
        }
        None
    }

    /// The first parameter of the record.
    pub fn first(&self) -> (res: Option<&Param>)
        ensures
            match res {
                Some(p) => self@.first() == Some(p@),
                None => self@.first().is_none(),
            },
    {
        if self.params.len() > 0 {
            Some(&self.params[0])
        } else {
            None
        }
    }
}

} // verus!
