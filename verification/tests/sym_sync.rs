use ampkt::sym::Sym;
use ampkt::sym_sync::{sync_syms, SymSync};

fn run(mut s: SymSync, mut sym_transform: impl FnMut(Sym) -> Sym) -> Option<usize> {
    let sync = sync_syms();
    let mut it = sync.iter().peekable();

    while let Some(sym) = it.next() {
        let v = s.push_sym(sym_transform(*sym));

        if it.peek().is_none() {
            return v;
        } else {
            assert!(v.is_none())
        }
    }

    unreachable!();
}

#[test]
fn sync_no_rot() {
    assert!(matches!(run(SymSync::new(), |s| s), Some(0)));
}

#[test]
fn sync_rot_1() {
    assert!(matches!(run(SymSync::new(), |s| s.add(1)), Some(1)));
}

#[test]
fn sync_rot_2() {
    assert!(matches!(run(SymSync::new(), |s| s.add(2)), Some(2)));
}

#[test]
fn sync_rot_3() {
    assert!(matches!(run(SymSync::new(), |s| s.add(3)), Some(3)));
}

#[test]
fn with_preamble() {
    let mut s = SymSync::new();

    s.push_sym(Sym::A);
    s.push_sym(Sym::B);
    s.push_sym(Sym::D);
    s.push_sym(Sym::A);

    assert!(matches!(run(s, |s| s.add(3)), Some(3)));
}

#[test]
fn correlation_words() {
    // The table holds the 32-bit word of the preamble under each
    // rotation, two bits per symbol, oldest in the most significant
    // bits.
    let s = SymSync::new();
    assert_eq!(
        s.rotations,
        vec![0x1237251e, 0x8b91b087, 0xedc8dae1, 0x746e4f78]
    );
}

#[test]
fn random_no_match() {
    // Randomized trial: symbols from a fixed linear congruential
    // generator should never line up with the 16-symbol preamble.
    let mut state: u64 = 0x2545f4914f6cdd1d;
    let mut s = SymSync::new();
    let mut matches: usize = 0;

    for _ in 0..10_000 {
        state = state
            .wrapping_mul(6364136223846793005)
            .wrapping_add(1442695040888963407);
        let sym = match (state >> 33) & 0x3 {
            0 => Sym::A,
            1 => Sym::B,
            2 => Sym::C,
            _ => Sym::D,
        };
        if s.push_sym(sym).is_some() {
            matches += 1;
        }
    }

    assert_eq!(matches, 0);
}
