//! The instruction set and its byte encoding.
//!
//! An instruction is written as its tag byte followed by its argument bytes,
//! with nothing between instructions. A stream of them can be read back
//! because each tag fixes how many arguments follow it.

use vstd::prelude::*;
use vstd::std_specs::convert::FromSpecImpl;

verus! {

#[derive(Copy, Clone, Debug, PartialEq)]
pub enum Bytecode {
    Halt,
    Dup,
    PushLocal { index: u8, context: u8 },
    PushArgument { index: u8, context: u8 },
    PushField { index: u8 },
    PushBlock { index: u8 },
    PushConstant { index: u8 },
    PushGlobal { index: u8 },
    Pop,
    PopLocal { index: u8, context: u8 },
    PopArgument { index: u8, context: u8 },
    PopField { index: u8 },
    Send { index: u8 },
    SuperSend { index: u8 },
    ReturnLocal,
    ReturnNonLocal,
}

/// The tag byte of an instruction.
pub open spec fn tag(bytecode: Bytecode) -> u8 {
    match bytecode {
        Bytecode::Halt => 0,
        Bytecode::Dup => 1,
        Bytecode::PushLocal { .. } => 2,
        Bytecode::PushArgument { .. } => 3,
        Bytecode::PushField { .. } => 4,
        Bytecode::PushBlock { .. } => 5,
        Bytecode::PushConstant { .. } => 6,
        Bytecode::PushGlobal { .. } => 7,
        Bytecode::Pop => 8,
        Bytecode::PopLocal { .. } => 9,
        Bytecode::PopArgument { .. } => 10,
        Bytecode::PopField { .. } => 11,
        Bytecode::Send { .. } => 12,
        Bytecode::SuperSend { .. } => 13,
        Bytecode::ReturnLocal => 14,
        Bytecode::ReturnNonLocal => 15,
    }
}

/// The argument bytes of an instruction, in the order of its fields.
pub open spec fn arguments(bytecode: Bytecode) -> Seq<u8> {
    match bytecode {
        Bytecode::PushLocal { index, context } => seq![index, context],
        Bytecode::PushArgument { index, context } => seq![index, context],
        Bytecode::PopLocal { index, context } => seq![index, context],
        Bytecode::PopArgument { index, context } => seq![index, context],
        Bytecode::PushField { index } => seq![index],
        Bytecode::PushBlock { index } => seq![index],
        Bytecode::PushConstant { index } => seq![index],
        Bytecode::PushGlobal { index } => seq![index],
        Bytecode::PopField { index } => seq![index],
        Bytecode::Send { index } => seq![index],
        Bytecode::SuperSend { index } => seq![index],
        _ => seq![],
    }
}

/// The bytes that stand for one instruction.
pub open spec fn encoding(bytecode: Bytecode) -> Seq<u8> {
    seq![tag(bytecode)] + arguments(bytecode)
}

/// The bytes that stand for a sequence of instructions.
pub open spec fn encoding_of_all(bytecodes: Seq<Bytecode>) -> Seq<u8>
    decreases bytecodes.len(),
{
    if bytecodes.len() == 0 {
        seq![]
    } else {
        encoding(bytecodes[0]) + encoding_of_all(bytecodes.drop_first())
    }
}

/// How many argument bytes follow a tag byte.
pub open spec fn arity(code: u8) -> nat {
    if code == 2 || code == 3 || code == 9 || code == 10 {
        2
    } else if code == 0 || code == 1 || code == 8 || code == 14 || code == 15 {
        0
    } else {
        1
    }
}

/// The instruction with the tag `code`, below 16, and the argument bytes
/// `first` and `second`, as far as the tag takes arguments.
pub open spec fn instruction(code: u8, first: u8, second: u8) -> Bytecode {
    if code == 0 {
        Bytecode::Halt
    } else if code == 1 {
        Bytecode::Dup
    } else if code == 2 {
        Bytecode::PushLocal { index: first, context: second }
    } else if code == 3 {
        Bytecode::PushArgument { index: first, context: second }
    } else if code == 4 {
        Bytecode::PushField { index: first }
    } else if code == 5 {
        Bytecode::PushBlock { index: first }
    } else if code == 6 {
        Bytecode::PushConstant { index: first }
    } else if code == 7 {
        Bytecode::PushGlobal { index: first }
    } else if code == 8 {
        Bytecode::Pop
    } else if code == 9 {
        Bytecode::PopLocal { index: first, context: second }
    } else if code == 10 {
        Bytecode::PopArgument { index: first, context: second }
    } else if code == 11 {
        Bytecode::PopField { index: first }
    } else if code == 12 {
        Bytecode::Send { index: first }
    } else if code == 13 {
        Bytecode::SuperSend { index: first }
    } else if code == 14 {
        Bytecode::ReturnLocal
    } else {
        Bytecode::ReturnNonLocal
    }
}

impl From<Bytecode> for Vec<u8> {
    fn from(source: Bytecode) -> (bytes: Vec<u8>)
        ensures
            bytes@ == encoding(source),
    {
        let bytes = match source {
            Bytecode::Halt => vec![0],
            Bytecode::Dup => vec![1],
            Bytecode::PushLocal { index, context } => vec![2, index, context],
            Bytecode::PushArgument { index, context } => vec![3, index, context],
            Bytecode::PushField { index } => vec![4, index],
            Bytecode::PushBlock { index } => vec![5, index],
            Bytecode::PushConstant { index } => vec![6, index],
            Bytecode::PushGlobal { index } => vec![7, index],
            Bytecode::Pop => vec![8],
            Bytecode::PopLocal { index, context } => vec![9, index, context],
            Bytecode::PopArgument { index, context } => vec![10, index, context],
            Bytecode::PopField { index } => vec![11, index],
            Bytecode::Send { index } => vec![12, index],
            Bytecode::SuperSend { index } => vec![13, index],
            Bytecode::ReturnLocal => vec![14],
            Bytecode::ReturnNonLocal => vec![15],
        };
        assert(bytes@ =~= encoding(source));
        bytes
    }
}

impl FromSpecImpl<Bytecode> for Vec<u8> {
    open spec fn obeys_from_spec() -> bool {
        false
    }

    open spec fn from_spec(source: Bytecode) -> Vec<u8> {
        arbitrary()
    }
}

#[derive(Copy, Clone, Debug, PartialEq)]
pub enum BytecodeIteratorError {
    UnknownBytecode(u8),
    InsufficientArguments,
}

/// What stands at one place of a byte stream.
pub enum Decoded {
    /// No byte is left.
    End,
    /// An instruction, and the place behind its last byte.
    Instruction { bytecode: Bytecode, next: int },
    /// The bytes from here on are no instruction.
    Failure(BytecodeIteratorError),
}

/// Reads the stream `bytes` at `position`.
pub open spec fn decode_at(bytes: Seq<u8>, position: int) -> Decoded {
    if position < 0 || position >= bytes.len() {
        Decoded::End
    } else {
        let code = bytes[position];
        if code >= 16 {
            Decoded::Failure(BytecodeIteratorError::UnknownBytecode(code))
        } else if position + arity(code) >= bytes.len() {
            Decoded::Failure(BytecodeIteratorError::InsufficientArguments)
        } else {
            Decoded::Instruction {
                bytecode: instruction(code, bytes[position + 1], bytes[position + 2]),
                next: position + 1 + arity(code),
            }
        }
    }
}

/// The instructions of the stream `bytes` from `position` to its end, or the
/// first failure met on the way.
pub open spec fn decoding(bytes: Seq<u8>, position: int) -> Result<
    Seq<Bytecode>,
    BytecodeIteratorError,
>
    decreases bytes.len() - position,
{
    match decode_at(bytes, position) {
        Decoded::End => Ok(seq![]),
        Decoded::Failure(error) => Err(error),
        Decoded::Instruction { bytecode, next } => match decoding(bytes, next) {
            Ok(rest) => Ok(seq![bytecode] + rest),
            Err(error) => Err(error),
        },
    }
}

/// Reads instructions off a byte stream, one per call.
pub struct BytecodeIterator {
    bytes: Vec<u8>,
    position: usize,
}

impl BytecodeIterator {
    /// The stream that is read.
    pub closed spec fn bytes(&self) -> Seq<u8> {
        self.bytes@
    }

    /// The place of the next byte to read.
    pub closed spec fn position(&self) -> int {
        self.position as int
    }

    /// The place lies within the stream or at its end.
    pub closed spec fn wf(&self) -> bool {
        self.position <= self.bytes.len()
    }

    pub fn new(inner: Vec<u8>) -> (iterator: BytecodeIterator)
        ensures
            iterator.wf(),
            iterator.bytes() == inner@,
            iterator.position() == 0,
    {
        BytecodeIterator { bytes: inner, position: 0 }
    }

    /// Reads one instruction. After a failure nothing more is read: the
    /// place is then the end of the stream.
    pub fn read_bytecode(&mut self) -> (result: Result<Option<Bytecode>, BytecodeIteratorError>)
        requires
            old(self).wf(),
        ensures
            final(self).wf(),
            final(self).bytes() == old(self).bytes(),
            match decode_at(old(self).bytes(), old(self).position()) {
                Decoded::End => result == Ok::<Option<Bytecode>, BytecodeIteratorError>(None)
                    && final(self).position() == old(self).position(),
                Decoded::Instruction { bytecode, next } => result == Ok::<
                    Option<Bytecode>,
                    BytecodeIteratorError,
                >(Some(bytecode)) && final(self).position() == next,
                Decoded::Failure(error) => result == Err::<
                    Option<Bytecode>,
                    BytecodeIteratorError,
                >(error) && final(self).position() == old(self).bytes().len(),
            },
    {
        if self.position >= self.bytes.len() {
            return Ok(None);
        }
        let code = self.bytes[self.position];
        self.position = self.position + 1;
        let decoded = match code {
            0 => Ok(Bytecode::Halt),
            1 => Ok(Bytecode::Dup),
            2 => self.read_two_arguments(code),
            3 => self.read_two_arguments(code),
            4 => self.read_one_argument(code),
            5 => self.read_one_argument(code),
            6 => self.read_one_argument(code),
            7 => self.read_one_argument(code),
            8 => Ok(Bytecode::Pop),
            9 => self.read_two_arguments(code),
            10 => self.read_two_arguments(code),
            11 => self.read_one_argument(code),
            12 => self.read_one_argument(code),
            13 => self.read_one_argument(code),
            14 => Ok(Bytecode::ReturnLocal),
            15 => Ok(Bytecode::ReturnNonLocal),
            c => Err(BytecodeIteratorError::UnknownBytecode(c)),
        };
        match decoded {
            Ok(bytecode) => Ok(Some(bytecode)),
            Err(error) => {
                self.position = self.bytes.len();
                Err(error)
            },
        }
    }

    /// Reads the one argument of an instruction whose tag was just read.
    fn read_one_argument(&mut self, code: u8) -> (result: Result<Bytecode, BytecodeIteratorError>)
        requires
            old(self).wf(),
            code < 16,
            arity(code) == 1,
        ensures
            final(self).wf(),
            final(self).bytes() == old(self).bytes(),
            old(self).position() < old(self).bytes().len() ==> result == Ok::<
                Bytecode,
                BytecodeIteratorError,
            >(instruction(code, old(self).bytes()[old(self).position()], 0))
                && final(self).position() == old(self).position() + 1,
            old(self).position() >= old(self).bytes().len() ==> result == Err::<
                Bytecode,
                BytecodeIteratorError,
            >(BytecodeIteratorError::InsufficientArguments),
    {
        let index = self.read_argument()?;
        let bytecode = if code == 4 {
            Bytecode::PushField { index }
        } else if code == 5 {
            Bytecode::PushBlock { index }
        } else if code == 6 {
            Bytecode::PushConstant { index }
        } else if code == 7 {
            Bytecode::PushGlobal { index }
        } else if code == 11 {
            Bytecode::PopField { index }
        } else if code == 12 {
            Bytecode::Send { index }
        } else {
            Bytecode::SuperSend { index }
        };
        Ok(bytecode)
    }

    /// Reads the two arguments of an instruction whose tag was just read.
    fn read_two_arguments(&mut self, code: u8) -> (result: Result<Bytecode, BytecodeIteratorError>)
        requires
            old(self).wf(),
            arity(code) == 2,
        ensures
            final(self).wf(),
            final(self).bytes() == old(self).bytes(),
            old(self).position() + 1 < old(self).bytes().len() ==> result == Ok::<
                Bytecode,
                BytecodeIteratorError,
            >(
                instruction(
                    code,
                    old(self).bytes()[old(self).position()],
                    old(self).bytes()[old(self).position() + 1],
                ),
            ) && final(self).position() == old(self).position() + 2,
            old(self).position() + 1 >= old(self).bytes().len() ==> result == Err::<
                Bytecode,
                BytecodeIteratorError,
            >(BytecodeIteratorError::InsufficientArguments),
    {
        let index = self.read_argument()?;
        let context = self.read_argument()?;
        let bytecode = if code == 2 {
            Bytecode::PushLocal { index, context }
        } else if code == 3 {
            Bytecode::PushArgument { index, context }
        } else if code == 9 {
            Bytecode::PopLocal { index, context }
        } else {
            Bytecode::PopArgument { index, context }
        };
        Ok(bytecode)
    }

    /// Reads one argument byte, if one is left.
    pub fn read_argument(&mut self) -> (result: Result<u8, BytecodeIteratorError>)
        requires
            old(self).wf(),
        ensures
            final(self).wf(),
            final(self).bytes() == old(self).bytes(),
            old(self).position() < old(self).bytes().len() ==> result == Ok::<
                u8,
                BytecodeIteratorError,
            >(old(self).bytes()[old(self).position()]) && final(self).position() == old(
                self,
            ).position() + 1,
            old(self).position() >= old(self).bytes().len() ==> result == Err::<
                u8,
                BytecodeIteratorError,
            >(BytecodeIteratorError::InsufficientArguments) && final(self).position() == old(
                self,
            ).position(),
    {
        if self.position < self.bytes.len() {
            let byte = self.bytes[self.position];
            self.position = self.position + 1;
            Ok(byte)
        } else {
            Err(BytecodeIteratorError::InsufficientArguments)
        }
    }

    /// The next item of the decoded sequence: an instruction, a failure, or
    /// nothing once the stream has ended.
    pub fn next(&mut self) -> (item: Option<Result<Bytecode, BytecodeIteratorError>>)
        requires
            old(self).wf(),
        ensures
            final(self).wf(),
            final(self).bytes() == old(self).bytes(),
            match decode_at(old(self).bytes(), old(self).position()) {
                Decoded::End => item == None::<Result<Bytecode, BytecodeIteratorError>>
                    && final(self).position() == old(self).position(),
                Decoded::Instruction { bytecode, next } => item == Some(
                    Ok::<Bytecode, BytecodeIteratorError>(bytecode),
                ) && final(self).position() == next,
                Decoded::Failure(error) => item == Some(
                    Err::<Bytecode, BytecodeIteratorError>(error),
                ) && final(self).position() == old(self).bytes().len(),
            },
    {
        match self.read_bytecode() {
            Ok(Some(c)) => Some(Ok(c)),
            Ok(None) => None,
            Err(e) => Some(Err(e)),
        }
    }

    /// Reads the rest of the stream: all its instructions, or the first
    /// failure.
    pub fn collect(self) -> (result: Result<Vec<Bytecode>, BytecodeIteratorError>)
        requires
            self.wf(),
        ensures
            match decoding(self.bytes(), self.position()) {
                Ok(bytecodes) => result matches Ok(found) && found@ == bytecodes,
                Err(error) => result == Err::<Vec<Bytecode>, BytecodeIteratorError>(error),
            },
    {
        let mut iterator = self;
        let mut found: Vec<Bytecode> = Vec::new();
        loop
            invariant
                iterator.wf(),
                iterator.bytes() == self.bytes(),
                match decoding(iterator.bytes(), iterator.position()) {
                    Ok(rest) => decoding(self.bytes(), self.position()) == Ok::<
                        Seq<Bytecode>,
                        BytecodeIteratorError,
                    >(found@ + rest),
                    Err(error) => decoding(self.bytes(), self.position()) == Err::<
                        Seq<Bytecode>,
                        BytecodeIteratorError,
                    >(error),
                },
            decreases iterator.bytes().len() - iterator.position(),
        {
            let ghost before = iterator.position();
            match iterator.next() {
                None => {
                    assert(found@ + Seq::<Bytecode>::empty() =~= found@);
                    return Ok(found);
                },
                Some(Err(error)) => {
                    return Err(error);
                },
                Some(Ok(bytecode)) => {
                    proof {
                        if let Ok(rest) = decoding(iterator.bytes(), iterator.position()) {
                            assert(found@ + (seq![bytecode] + rest) =~= found@.push(bytecode)
                                + rest);
                        }
                    }
                    found.push(bytecode);
                },
            }
        }
    }
}

/// An instruction that was encoded is read back as it was, and reading
/// stops behind its last byte, whatever stands before and behind it.
pub proof fn lemma_decode_encoding(before: Seq<u8>, bytecode: Bytecode, behind: Seq<u8>)
    ensures
        decode_at(before + encoding(bytecode) + behind, before.len() as int)
            == (Decoded::Instruction {
            bytecode,
            next: (before.len() + encoding(bytecode).len()) as int,
        }),
{
    let bytes = before + encoding(bytecode) + behind;
    let start = before.len() as int;
    assert(bytes[start] == tag(bytecode));
    if arity(tag(bytecode)) >= 1 {
        assert(bytes[start + 1] == arguments(bytecode)[0]);
    }
    if arity(tag(bytecode)) >= 2 {
        assert(bytes[start + 2] == arguments(bytecode)[1]);
    }
}

/// Decoding the encoding of a sequence of instructions, wherever it starts
/// in a stream that ends with it, gives the sequence back.
pub proof fn lemma_decoding_of_encoding(before: Seq<u8>, bytecodes: Seq<Bytecode>)
    ensures
        decoding(before + encoding_of_all(bytecodes), before.len() as int) == Ok::<
            Seq<Bytecode>,
            BytecodeIteratorError,
        >(bytecodes),
    decreases bytecodes.len(),
{
    let bytes = before + encoding_of_all(bytecodes);
    let start = before.len() as int;
    if bytecodes.len() == 0 {
        assert(bytes =~= before);
        assert(bytecodes =~= Seq::<Bytecode>::empty());
    } else {
        let first = bytecodes[0];
        let rest = bytecodes.drop_first();
        let longer = before + encoding(first);
        assert(bytes =~= before + encoding(first) + encoding_of_all(rest));
        assert(bytes =~= longer + encoding_of_all(rest));
        lemma_decode_encoding(before, first, encoding_of_all(rest));
        lemma_decoding_of_encoding(longer, rest);
        assert(decode_at(bytes, start) == (Decoded::Instruction {
            bytecode: first,
            next: longer.len() as int,
        }));
        assert(decoding(bytes, longer.len() as int) == Ok::<Seq<Bytecode>, BytecodeIteratorError>(
            rest,
        ));
        assert(seq![first] + rest =~= bytecodes);
    }
}

/// Round trip: a sequence of instructions, encoded and then decoded from the
/// start, comes back unchanged.
pub proof fn lemma_round_trip(bytecodes: Seq<Bytecode>)
    ensures
        decoding(encoding_of_all(bytecodes), 0) == Ok::<Seq<Bytecode>, BytecodeIteratorError>(
            bytecodes,
        ),
{
    lemma_decoding_of_encoding(seq![], bytecodes);
    assert(Seq::<u8>::empty() + encoding_of_all(bytecodes) =~= encoding_of_all(bytecodes));
}

} // verus!
