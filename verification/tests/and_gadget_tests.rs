use and_gadget::gadget::AndChip;
use and_gadget::gadget::SynthesisError;
use and_gadget::spread::TABLE_SIZE;
use and_gadget::spread::WORD_BITS;
use and_gadget::spread::alloc_table;
use and_gadget::spread::even_bits_at;
use and_gadget::topology::MyCircuit;
use and_gadget::topology::Trace;
use and_gadget::topology::check_trace;
use and_gadget::topology::lookup_even_bits;
use and_gadget::word::Word;
use and_gadget::word::decompose;

#[test]
fn even_bits_at_test() {
    assert_eq!(0b0, even_bits_at(0));
    assert_eq!(0b1, even_bits_at(1));
    assert_eq!(0b100, even_bits_at(2));
    assert_eq!(0b101, even_bits_at(3));
}

#[test]
fn decompose_test_even_odd() {
    let odds: u64 = 0xAAAA;
    let evens: u64 = 0x5555;
    let (e, o) = decompose(odds);
    assert_eq!(e, 0);
    assert_eq!(o, odds >> 1);
    let (e, o) = decompose(evens);
    assert_eq!(e, evens);
    assert_eq!(o, 0);
}

#[test]
fn spread_table_rows() {
    assert_eq!(1usize << (WORD_BITS / 2), TABLE_SIZE);
    assert_eq!(even_bits_at(0xFFFF), 0x5555_5555);
    let t = alloc_table();
    assert_eq!(t.len(), TABLE_SIZE);
    assert_eq!(t[15], 0x55);
    for i in 1..t.len() {
        assert!(t[i - 1] < t[i]);
    }
    for v in t.iter() {
        assert_eq!(v & 0xAA, 0);
    }
}

#[test]
fn decompose_compose_roundtrip() {
    for x in [0u64, 1, 2, 3, 0xAB, 0xFF, 0xDEAD, 0xAAAA_AAAA, u64::MAX] {
        let (e, o) = decompose(x);
        assert_eq!(e + 2 * o, x);
    }
}

#[test]
fn and_pipeline_three_and_four() {
    let circuit = MyCircuit {
        a: Some(3),
        b: Some(4),
    };
    let t = circuit.synthesize(MyCircuit::configure()).unwrap();
    assert_eq!(t.result, 0);
    let config = MyCircuit::configure();
    assert!(check_trace(&config, &t, 0));
    assert!(!check_trace(&config, &t, 1));
}

#[test]
fn and_pipeline_seven_and_six() {
    let circuit = MyCircuit {
        a: Some(7),
        b: Some(6),
    };
    let t = circuit.synthesize(MyCircuit::configure()).unwrap();
    assert_eq!(t.result, 6);
    let config = MyCircuit::configure();
    assert!(check_trace(&config, &t, 6));
    assert!(!check_trace(&config, &t, 7));
}

#[test]
fn and_pipeline_two_and_three() {
    let circuit = MyCircuit {
        a: Some(2),
        b: Some(3),
    };
    let t = circuit.synthesize(MyCircuit::configure()).unwrap();
    assert_eq!(t.result, 2);
    let config = MyCircuit::configure();
    assert!(check_trace(&config, &t, 2));
    assert!(!check_trace(&config, &t, 3));
}

#[test]
fn and_pipeline_all_words() {
    let config = MyCircuit::configure();
    for a in 0..256u64 {
        for b in 0..256u64 {
            let circuit = MyCircuit {
                a: Some(a),
                b: Some(b),
            };
            let t = circuit.synthesize(MyCircuit::configure()).unwrap();
            assert_eq!(t.result, a & b);
            assert!(check_trace(&config, &t, a & b));
            assert!(!check_trace(&config, &t, a & b ^ 1));
        }
    }
}

#[test]
fn lookup_soundness_rejected() {
    // Every linear gate of this assignment holds, but the claimed even
    // components of the inputs have a two-bit digit of value 2, which is
    // not a spread-table member: the lookups must reject it.
    let t = Trace {
        a: 2,
        b: 2,
        ae: 2,
        ao: 0,
        be: 2,
        bo: 0,
        e: 4,
        o: 0,
        ee: 4,
        eo: 0,
        oe: 0,
        oo: 0,
        result: 0,
    };
    let config = MyCircuit::configure();
    assert!(!check_trace(&config, &t, 0));
    // The honest assignment for the same inputs is accepted.
    let circuit = MyCircuit {
        a: Some(2),
        b: Some(2),
    };
    let honest = circuit.synthesize(MyCircuit::configure()).unwrap();
    assert_eq!(honest.result, 2);
    assert!(check_trace(&config, &honest, 2));
}

#[test]
fn witness_absence() {
    let circuit = MyCircuit {
        a: None,
        b: Some(1),
    };
    assert_eq!(
        circuit.synthesize(MyCircuit::configure()),
        Err(SynthesisError::MissingWitness)
    );
    let circuit = MyCircuit {
        a: Some(1),
        b: None,
    };
    assert_eq!(
        circuit.synthesize(MyCircuit::configure()),
        Err(SynthesisError::MissingWitness)
    );
    let full = MyCircuit {
        a: Some(1),
        b: Some(2),
    };
    let empty = full.without_witnesses();
    assert!(empty.a.is_none());
    assert!(empty.b.is_none());
    assert_eq!(
        empty.synthesize(MyCircuit::configure()),
        Err(SynthesisError::MissingWitness)
    );
}

#[test]
fn chip_operations() {
    let chip = AndChip::construct(AndChip::configure());
    assert_eq!(chip.config().even_bits.len(), 16);
    let x = chip.load_private(Some(5)).unwrap();
    assert_eq!(x.value, Some(5));
    assert!(matches!(
        chip.load_private(None),
        Err(SynthesisError::MissingWitness)
    ));
    let y = chip.load_private(Some(7)).unwrap();
    let s = chip.add(&x, &y).unwrap();
    assert_eq!(s.value, Some(12));
    let c = chip.compose(&x, &y).unwrap();
    assert_eq!(c.value, Some(19));
    let (e, o) = chip.verify_decompose(&y).unwrap();
    assert_eq!(e.value, Some(5));
    assert_eq!(o.value, Some(1));
    assert_eq!(chip.expose_public(&s, 0).unwrap(), 12);
    let absent = Word { value: None };
    assert!(matches!(
        chip.add(&absent, &y),
        Err(SynthesisError::MissingWitness)
    ));
    assert!(matches!(
        chip.verify_decompose(&absent),
        Err(SynthesisError::MissingWitness)
    ));
    assert!(matches!(
        chip.compose(&y, &absent),
        Err(SynthesisError::MissingWitness)
    ));
    assert!(matches!(
        chip.expose_public(&absent, 0),
        Err(SynthesisError::MissingWitness)
    ));
}

#[test]
fn lookup_membership() {
    let config = MyCircuit::configure();
    assert!(lookup_even_bits(&config, 0));
    assert!(lookup_even_bits(&config, 1));
    assert!(lookup_even_bits(&config, 0x55));
    assert!(!lookup_even_bits(&config, 2));
    assert!(!lookup_even_bits(&config, 0x56));
    assert!(!lookup_even_bits(&config, 0x100));
}
