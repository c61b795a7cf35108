use ampkt::sym::Sym;

#[test]
fn sym_rotation_symmetry() {
    let x = vec![Sym::A, Sym::B, Sym::C, Sym::D];

    assert_eq!(
        x,
        x.iter()
            .map(|x| x.inc().inc().inc().inc())
            .collect::<Vec<_>>()
    );
    assert_eq!(
        x.iter().map(|x| x.dec()).collect::<Vec<_>>(),
        x.iter().map(|x| x.inc().inc().inc()).collect::<Vec<_>>()
    );
    assert_eq!(
        x.iter().map(|x| x.dec().dec()).collect::<Vec<_>>(),
        x.iter().map(|x| x.inc().inc()).collect::<Vec<_>>()
    );
    assert_eq!(
        x.iter().map(|x| x.dec().dec().dec()).collect::<Vec<_>>(),
        x.iter().map(|x| x.inc()).collect::<Vec<_>>()
    );
}

#[test]
fn sym_addition() {
    let x = vec![Sym::A, Sym::B, Sym::C, Sym::D];

    assert_eq!(x.iter().map(|x| x.add(4)).collect::<Vec<_>>(), x);
    assert_eq!(
        x.iter().map(|x| x.add(5)).collect::<Vec<_>>(),
        x.iter().map(|x| x.add(1)).collect::<Vec<_>>()
    );
    assert_eq!(
        x.iter().map(|x| x.add(9)).collect::<Vec<_>>(),
        x.iter().map(|x| x.add(1)).collect::<Vec<_>>()
    );
    assert_eq!(
        x.iter().map(|x| x.add(6)).collect::<Vec<_>>(),
        x.iter().map(|x| x.add(2)).collect::<Vec<_>>()
    );
    assert_eq!(
        x.iter().map(|x| x.add(7)).collect::<Vec<_>>(),
        x.iter().map(|x| x.add(3)).collect::<Vec<_>>()
    );
    assert_eq!(x.iter().map(|x| x.add(8)).collect::<Vec<_>>(), x);
}

#[test]
fn sym_add_sub_inverse() {
    for s in [Sym::A, Sym::B, Sym::C, Sym::D] {
        for n in 0..9usize {
            assert_eq!(s.add(n).sub(n), s);
            assert_eq!(s.add(n), s.add(n % 4));
        }
    }
}

#[test]
fn byte_to_symbols_encoding() {
    // 0xDE = 11 01 11 10 -> D B D C
    assert_eq!(
        Sym::syms_from_byte(0xde),
        vec![Sym::D, Sym::B, Sym::D, Sym::C]
    );
    assert_eq!(
        Sym::syms_from_byte(0x00),
        vec![Sym::A, Sym::A, Sym::A, Sym::A]
    );
    assert_eq!(
        Sym::syms_from_byte(0xff),
        vec![Sym::D, Sym::D, Sym::D, Sym::D]
    );
    assert_eq!(
        Sym::syms_from_byte(0x1b),
        vec![Sym::A, Sym::B, Sym::C, Sym::D]
    );
}
