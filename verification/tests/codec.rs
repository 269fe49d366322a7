use nyooom_vm::bytes::{DecodeError, FromBytes, ToBytes};
use nyooom_vm::instruction::Instruction;
use nyooom_vm::value::char::Char;
use nyooom_vm::value::number::{Float, Int};
use nyooom_vm::value::string::String as NString;
use nyooom_vm::value::{Text, Value};

fn text(s: &str) -> Value {
    Value::Str(NString::new(s.as_bytes().to_vec()))
}

fn sample() -> Vec<Value> {
    vec![
        Value::Null,
        Value::True,
        Value::False,
        Value::Int32(Int::new(0)),
        Value::Int32(Int::new(-1)),
        Value::Int32(Int::new(i32::MIN)),
        Value::Int32(Int::new(i32::MAX)),
        Value::Int64(Int::new(7)),
        Value::Int64(Int::new(i64::MIN)),
        Value::Int64(Int::new(i64::MAX)),
        Value::Float32(Float::new(1.5f32.to_bits())),
        Value::Float32(Float::new((-0.0f32).to_bits())),
        Value::Float64(Float::new(3.14159f64.to_bits())),
        Value::Float64(Float::new(f64::NAN.to_bits())),
        Value::Char(Char::new('a')),
        Value::Char(Char::new('\0')),
        Value::Char(Char::new('\u{ff}')),
        text(""),
        text("Hello World!"),
        Value::Str(NString::new(vec![0, 255, 10, 34])),
        Value::Str(NString::new(vec![b'x'; 65535])),
    ]
}

#[test]
fn value_wire_layout() {
    assert_eq!(Value::Null.bytes(), vec![0x10]);
    assert_eq!(Value::True.bytes(), vec![0x11]);
    assert_eq!(Value::False.bytes(), vec![0x12]);
    assert_eq!(Value::Int32(Int::new(1)).bytes(), vec![0x13, 1, 0, 0, 0]);
    assert_eq!(Value::Int32(Int::new(-2)).bytes(), vec![0x13, 0xfe, 0xff, 0xff, 0xff]);
    assert_eq!(
        Value::Int32(Int::new(0x1234_5678)).bytes(),
        vec![0x13, 0x78, 0x56, 0x34, 0x12]
    );
    assert_eq!(
        Value::Int64(Int::new(0x0102_0304_0506_0708)).bytes(),
        vec![0x14, 8, 7, 6, 5, 4, 3, 2, 1]
    );
    assert_eq!(
        Value::Int64(Int::new(-1)).bytes(),
        vec![0x14, 255, 255, 255, 255, 255, 255, 255, 255]
    );
    let mut f32_bytes = vec![0x15];
    f32_bytes.extend(1.5f32.to_le_bytes());
    assert_eq!(Value::Float32(Float::new(1.5f32.to_bits())).bytes(), f32_bytes);
    let mut f64_bytes = vec![0x16];
    f64_bytes.extend(1.5f64.to_le_bytes());
    assert_eq!(Value::Float64(Float::new(1.5f64.to_bits())).bytes(), f64_bytes);
    assert_eq!(Value::Char(Char::new('A')).bytes(), vec![0x17, 0x41]);
    assert_eq!(text("hi").bytes(), vec![0x18, 2, 0, b'h', b'i']);
    assert_eq!(text("").bytes(), vec![0x18, 0, 0]);
}

#[test]
fn integer_wrappers_match_the_machine_layout() {
    for v in [0i32, 1, -1, 255, 256, -256, i32::MIN, i32::MAX, 0x1234_5678] {
        let mut expected = vec![0x13];
        expected.extend(v.to_le_bytes());
        assert_eq!(Int::new(v).bytes(), expected);
    }
    for v in [0i64, 1, -1, i64::MIN, i64::MAX, 0x0102_0304_0506_0708] {
        let mut expected = vec![0x14];
        expected.extend(v.to_le_bytes());
        assert_eq!(Int::new(v).bytes(), expected);
    }
}

#[test]
fn value_round_trip() {
    for v in sample() {
        let mut buffer = v.bytes();
        let back = Value::fromBytes(&mut buffer).unwrap();
        assert_eq!(back, v);
        assert!(buffer.is_empty());
    }
}

#[test]
fn value_round_trip_leaves_the_rest() {
    for v in sample() {
        let mut buffer = v.bytes();
        let n = buffer.len();
        buffer.extend([0x30, 0x00, 0xaa]);
        let (back, used) = Value::decode(&buffer).unwrap();
        assert_eq!(back, v);
        assert_eq!(used, n);
        let back = Value::fromBytes(&mut buffer).unwrap();
        assert_eq!(back, v);
        assert_eq!(buffer, vec![0x30, 0x00, 0xaa]);
    }
}

#[test]
fn booleans_keep_their_own_tags() {
    let mut t = vec![0x11];
    let mut f = vec![0x12];
    assert_eq!(Value::fromBytes(&mut t).unwrap(), Value::True);
    assert_eq!(Value::fromBytes(&mut f).unwrap(), Value::False);
}

#[test]
fn wide_character_is_cut_to_one_byte() {
    assert_eq!(Value::Char(Char::new('\u{141}')).bytes(), vec![0x17, 0x41]);
    let mut buffer = Value::Char(Char::new('\u{141}')).bytes();
    assert_eq!(Value::fromBytes(&mut buffer).unwrap(), Value::Char(Char::new('A')));
}

#[test]
fn long_string_length_is_cut_to_sixteen_bits() {
    let long = Value::Str(NString::new(vec![b'y'; 65536 + 2]));
    let bytes = long.bytes();
    assert_eq!(bytes.len(), 3 + 65538);
    assert_eq!(&bytes[..3], &[0x18, 2, 0]);
    let (back, used) = Value::decode(&bytes).unwrap();
    assert_eq!(back, text("yy"));
    assert_eq!(used, 5);
}

#[test]
fn value_decode_errors() {
    assert_eq!(Value::decode(&[]), Err(DecodeError::UnexpectedEnd));
    assert_eq!(Value::decode(&[0x00]), Err(DecodeError::UnknownOpcode(0x00)));
    assert_eq!(Value::decode(&[0x19]), Err(DecodeError::UnknownOpcode(0x19)));
    assert_eq!(Value::decode(&[0xff, 1, 2]), Err(DecodeError::UnknownOpcode(0xff)));
    assert_eq!(Value::decode(&[0x13, 1, 2, 3]), Err(DecodeError::UnexpectedEnd));
    assert_eq!(Value::decode(&[0x14, 1, 2, 3, 4, 5, 6, 7]), Err(DecodeError::UnexpectedEnd));
    assert_eq!(Value::decode(&[0x15]), Err(DecodeError::UnexpectedEnd));
    assert_eq!(Value::decode(&[0x16, 0, 0, 0, 0]), Err(DecodeError::UnexpectedEnd));
    assert_eq!(Value::decode(&[0x17]), Err(DecodeError::UnexpectedEnd));
    assert_eq!(Value::decode(&[0x18, 1]), Err(DecodeError::UnexpectedEnd));
    assert_eq!(Value::decode(&[0x18, 3, 0, b'a', b'b']), Err(DecodeError::UnexpectedEnd));
}

#[test]
fn failed_decode_leaves_the_buffer() {
    let mut buffer = vec![0x13, 1, 2];
    assert_eq!(Value::fromBytes(&mut buffer), Err(DecodeError::UnexpectedEnd));
    assert_eq!(buffer, vec![0x13, 1, 2]);
    let mut buffer = vec![0x99, 1, 2];
    assert_eq!(Instruction::fromBytes(&mut buffer), Err(DecodeError::UnknownOpcode(0x99)));
    assert_eq!(buffer, vec![0x99, 1, 2]);
}

fn instructions() -> Vec<Instruction> {
    let mut all = vec![
        Instruction::Halt,
        Instruction::Pop,
        Instruction::Add,
        Instruction::Sub,
        Instruction::Mul,
        Instruction::Div,
        Instruction::Print,
    ];
    for v in sample() {
        all.push(Instruction::Push(v));
    }
    all
}

#[test]
fn instruction_wire_layout() {
    assert_eq!(Instruction::Halt.bytes(), vec![0x00]);
    assert_eq!(Instruction::Pop.bytes(), vec![0x02]);
    assert_eq!(Instruction::Add.bytes(), vec![0x20]);
    assert_eq!(Instruction::Sub.bytes(), vec![0x21]);
    assert_eq!(Instruction::Mul.bytes(), vec![0x22]);
    assert_eq!(Instruction::Div.bytes(), vec![0x23]);
    assert_eq!(Instruction::Print.bytes(), vec![0x30]);
    assert_eq!(Instruction::Push(Value::Null).bytes(), vec![0x01, 0x10]);
    assert_eq!(
        Instruction::Push(Value::Int32(Int::new(5))).bytes(),
        vec![0x01, 0x13, 5, 0, 0, 0]
    );
}

#[test]
fn instruction_round_trip() {
    for i in instructions() {
        let mut buffer = i.bytes();
        let back = Instruction::fromBytes(&mut buffer).unwrap();
        assert_eq!(back, i);
        assert!(buffer.is_empty());
    }
}

#[test]
fn instruction_decode_errors() {
    assert_eq!(Instruction::decode(&[]), Err(DecodeError::UnexpectedEnd));
    assert_eq!(Instruction::decode(&[0x03]), Err(DecodeError::UnknownOpcode(0x03)));
    assert_eq!(Instruction::decode(&[0x10]), Err(DecodeError::UnknownOpcode(0x10)));
    assert_eq!(Instruction::decode(&[0x6e]), Err(DecodeError::UnknownOpcode(0x6e)));
    assert_eq!(Instruction::decode(&[0x01]), Err(DecodeError::UnexpectedEnd));
    assert_eq!(Instruction::decode(&[0x01, 0x20]), Err(DecodeError::UnknownOpcode(0x20)));
    assert_eq!(Instruction::decode(&[0x01, 0x13, 0]), Err(DecodeError::UnexpectedEnd));
}

#[test]
fn instruction_stream_round_trip() {
    let xs = instructions();
    let bytes = Instruction::encodeAll(&xs);
    let mut expected = Vec::new();
    for i in &xs {
        expected.extend(i.bytes());
    }
    assert_eq!(bytes, expected);
    assert_eq!(Instruction::decodeAll(&bytes).unwrap(), xs);

    let mut buffer = bytes;
    let mut back = Vec::new();
    while !buffer.is_empty() {
        back.push(Instruction::fromBytes(&mut buffer).unwrap());
    }
    assert_eq!(back, xs);
}

#[test]
fn empty_stream_round_trip() {
    assert_eq!(Instruction::encodeAll(&Vec::new()), Vec::<u8>::new());
    assert_eq!(Instruction::decodeAll(&[]).unwrap(), Vec::<Instruction>::new());
}

#[test]
fn stream_decode_stops_at_the_first_error() {
    assert_eq!(
        Instruction::decodeAll(&[0x20, 0x21, 0x77, 0x00]),
        Err(DecodeError::UnknownOpcode(0x77))
    );
    assert_eq!(Instruction::decodeAll(&[0x00, 0x01, 0x14, 1]), Err(DecodeError::UnexpectedEnd));
}

#[test]
fn rendering_of_values() {
    let plain = |s: &str| Text::Plain(s.as_bytes().to_vec());
    assert_eq!(Value::Null.to_string(), plain("null"));
    assert_eq!(Value::True.to_string(), plain("true"));
    assert_eq!(Value::False.to_string(), plain("false"));
    for v in [0i32, 7, -7, 10, 100, -2147483648, 2147483647] {
        assert_eq!(Value::Int32(Int::new(v)).to_string(), plain(&v.to_string()));
    }
    for v in [0i64, 42, -42, i64::MIN, i64::MAX, 1_000_000_007] {
        assert_eq!(Value::Int64(Int::new(v)).to_string(), plain(&v.to_string()));
    }
    assert_eq!(
        Value::Float32(Float::new(1.5f32.to_bits())).to_string(),
        Text::Float32(1.5f32.to_bits())
    );
    assert_eq!(
        Value::Float64(Float::new(2.5f64.to_bits())).to_string(),
        Text::Float64(2.5f64.to_bits())
    );
    for c in ['a', '\n', 'é', '€', '😀', '\u{7f}', '\u{80}', '\u{7ff}', '\u{800}', '\u{ffff}'] {
        assert_eq!(Value::Char(Char::new(c)).to_string(), plain(&c.to_string()));
    }
    assert_eq!(text("Hello World!").to_string(), plain("Hello World!"));
    assert_eq!(
        Value::Str(NString::new(vec![0, 200, 7])).to_string(),
        Text::Plain(vec![0, 200, 7])
    );
}

#[test]
fn wrapper_accessors() {
    assert_eq!(Int::new(5i32).value(), 5);
    assert_eq!(Int::new(-5i64).value(), -5);
    assert_eq!(Int::new(12i32).to_string(), "12".as_bytes().to_vec());
    assert_eq!(Float::new(7u32).value(), 7);
    assert_eq!(Float::new(9u64).value(), 9);
    assert!(Float::new(0u32).isZero());
    assert!(Float::new((-0.0f32).to_bits()).isZero());
    assert!(Float::new((-0.0f64).to_bits()).isZero());
    assert!(!Float::new(1.0f64.to_bits()).isZero());
    assert!(!Float::new(f32::MIN_POSITIVE.to_bits()).isZero());
    assert_eq!(Char::new('x').value(), 'x');
    assert_eq!(Char::from(65u8).value(), 'A');
    let s = NString::new("abc".as_bytes().to_vec());
    assert_eq!(s.len(), 3);
    assert_eq!(s.value(), "abc".as_bytes().to_vec());
    assert_eq!(s.clone().add("de".as_bytes()).value(), "abcde".as_bytes().to_vec());
    assert_eq!(Char::new('A').bytes(), vec![0x17, 0x41]);
    assert_eq!(s.bytes(), vec![0x18, 3, 0, b'a', b'b', b'c']);
}

#[test]
fn values_from_plain_data() {
    assert_eq!(Value::from(true), Value::True);
    assert_eq!(Value::from(false), Value::False);
    assert_eq!(Value::from(3i32), Value::Int32(Int::new(3)));
    assert_eq!(Value::from(3i64), Value::Int64(Int::new(3)));
    assert_eq!(Value::from(-3isize), Value::Int64(Int::new(-3)));
    assert_eq!(Value::from('c'), Value::Char(Char::new('c')));
    assert_eq!(Value::from("s".as_bytes().to_vec()), text("s"));
    assert_eq!(Value::from(Int::new(1i32)), Value::Int32(Int::new(1)));
    assert_eq!(Value::from(Float::new(1u64)), Value::Float64(Float::new(1)));
}
