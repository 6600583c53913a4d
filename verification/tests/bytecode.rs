use som::interpreter::bytecode::{Bytecode, BytecodeIterator, BytecodeIteratorError};

#[test]
fn test_bytecode_iterator() {
    let bytecodes = BytecodeIterator::new(vec![2, 1, 2, 3, 3, 4, 12, 5])
        .collect()
        .unwrap();
    assert_eq!(
        vec![
            Bytecode::PushLocal {
                index: 1,
                context: 2
            },
            Bytecode::PushArgument {
                index: 3,
                context: 4
            },
            Bytecode::Send { index: 5 },
        ],
        bytecodes
    );
}

#[test]
fn test_bytecode_iterator_unknown_bytecode() {
    let error = BytecodeIterator::new(vec![16]).collect().unwrap_err();
    assert_eq!(BytecodeIteratorError::UnknownBytecode(16), error);
}

#[test]
fn test_bytecode_iterator_insufficient_arguments() {
    let error = BytecodeIterator::new(vec![3, 0]).collect().unwrap_err();
    assert_eq!(BytecodeIteratorError::InsufficientArguments, error);
}

#[test]
fn encoding_follows_the_table() {
    let table: Vec<(Bytecode, Vec<u8>)> = vec![
        (Bytecode::Halt, vec![0]),
        (Bytecode::Dup, vec![1]),
        (Bytecode::PushLocal { index: 7, context: 9 }, vec![2, 7, 9]),
        (Bytecode::PushArgument { index: 7, context: 9 }, vec![3, 7, 9]),
        (Bytecode::PushField { index: 7 }, vec![4, 7]),
        (Bytecode::PushBlock { index: 7 }, vec![5, 7]),
        (Bytecode::PushConstant { index: 7 }, vec![6, 7]),
        (Bytecode::PushGlobal { index: 7 }, vec![7, 7]),
        (Bytecode::Pop, vec![8]),
        (Bytecode::PopLocal { index: 7, context: 9 }, vec![9, 7, 9]),
        (Bytecode::PopArgument { index: 7, context: 9 }, vec![10, 7, 9]),
        (Bytecode::PopField { index: 7 }, vec![11, 7]),
        (Bytecode::Send { index: 7 }, vec![12, 7]),
        (Bytecode::SuperSend { index: 7 }, vec![13, 7]),
        (Bytecode::ReturnLocal, vec![14]),
        (Bytecode::ReturnNonLocal, vec![15]),
    ];
    for (bytecode, bytes) in table {
        assert_eq!(bytes, Vec::<u8>::from(bytecode));
        assert_eq!(
            Ok(vec![bytecode]),
            BytecodeIterator::new(bytes).collect()
        );
    }
}

#[test]
fn push_local_round_trip() {
    let bytecode = Bytecode::PushLocal {
        index: 1,
        context: 2,
    };
    let bytes: Vec<u8> = bytecode.into();
    assert_eq!(vec![2, 1, 2], bytes);
    let mut iterator = BytecodeIterator::new(bytes);
    assert_eq!(Some(Ok(bytecode)), iterator.next());
    assert_eq!(None, iterator.next());
}

#[test]
fn round_trip_of_a_sequence_with_extreme_arguments() {
    let program = vec![
        Bytecode::PushLocal { index: 0, context: 255 },
        Bytecode::Halt,
        Bytecode::SuperSend { index: 255 },
        Bytecode::PopArgument { index: 16, context: 16 },
        Bytecode::ReturnNonLocal,
    ];
    let mut bytes: Vec<u8> = Vec::new();
    for bytecode in &program {
        bytes.extend(Vec::<u8>::from(*bytecode));
    }
    assert_eq!(Ok(program), BytecodeIterator::new(bytes).collect());
}

#[test]
fn empty_stream_holds_no_instruction() {
    let mut iterator = BytecodeIterator::new(vec![]);
    assert_eq!(None, iterator.next());
    assert_eq!(Ok(None), iterator.read_bytecode());
    assert_eq!(Ok(vec![]), BytecodeIterator::new(vec![]).collect());
}

#[test]
fn unknown_bytecode_ends_the_sequence() {
    let mut iterator = BytecodeIterator::new(vec![1, 200, 0, 0]);
    assert_eq!(Some(Ok(Bytecode::Dup)), iterator.next());
    assert_eq!(
        Some(Err(BytecodeIteratorError::UnknownBytecode(200))),
        iterator.next()
    );
    assert_eq!(None, iterator.next());
}

#[test]
fn missing_argument_ends_the_sequence() {
    let mut iterator = BytecodeIterator::new(vec![0, 12]);
    assert_eq!(Some(Ok(Bytecode::Halt)), iterator.next());
    assert_eq!(
        Some(Err(BytecodeIteratorError::InsufficientArguments)),
        iterator.next()
    );
    assert_eq!(None, iterator.next());

    let error = BytecodeIterator::new(vec![9]).collect().unwrap_err();
    assert_eq!(BytecodeIteratorError::InsufficientArguments, error);
}

#[test]
fn read_argument_takes_one_byte() {
    let mut iterator = BytecodeIterator::new(vec![42]);
    assert_eq!(Ok(42), iterator.read_argument());
    assert_eq!(
        Err(BytecodeIteratorError::InsufficientArguments),
        iterator.read_argument()
    );
}
