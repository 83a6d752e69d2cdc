use snark_verifier::loader::{LoadedScalar, Loader, LoaderKind};
use snark_verifier::transcript::Transcript;
use snark_verifier::{Error, TranscriptErrorKind};

#[test]
fn sponge_formulas_give_exact_values() {
    // state starts at 5; absorbing v maps s to s*31 + v; squeezing maps s to
    // s*s + 17 and yields the new state
    let mut l = Loader::new(LoaderKind::Native, 101);
    let mut t = Transcript::new(&mut l, vec![]);
    assert_eq!(t.state.val(), 5);
    t.absorb(&mut l, &LoadedScalar::Native { value: 7 });
    assert_eq!(t.state.val(), 61); // (5*31 + 7) mod 101
    let c = t.squeeze_challenge(&mut l);
    assert_eq!(c.val(), 1); // (61*61 + 17) mod 101
    assert_eq!(t.state.val(), 1);
}

#[test]
fn reading_absorbs_and_advances() {
    let mut l = Loader::new(LoaderKind::Native, 101);
    let mut t = Transcript::new(&mut l, vec![7, 100]);
    let a = t.read_scalar(&mut l).unwrap();
    assert_eq!(a.val(), 7);
    assert_eq!(t.state.val(), 61);
    let b = t.read_point(&mut l).unwrap();
    assert_eq!(b.val(), 100);
}

#[test]
fn reading_past_the_end_fails() {
    let mut l = Loader::new(LoaderKind::Native, 101);
    let mut t = Transcript::new(&mut l, vec![]);
    let r = t.read_scalar(&mut l);
    assert!(matches!(
        r,
        Err(Error::Transcript(TranscriptErrorKind::UnexpectedEnd, _))
    ));
}

#[test]
fn non_canonical_stream_element_fails() {
    let mut l = Loader::new(LoaderKind::Native, 101);
    let mut t = Transcript::new(&mut l, vec![101]);
    let r = t.read_scalar(&mut l);
    assert!(matches!(
        r,
        Err(Error::Transcript(TranscriptErrorKind::InvalidData, _))
    ));
}

#[test]
fn instance_loading_absorbs_in_order() {
    let mut l1 = Loader::new(LoaderKind::Native, 101);
    let mut t1 = Transcript::new(&mut l1, vec![]);
    let loaded = t1.load_instances(&mut l1, &vec![2, 3]);
    assert_eq!(loaded.len(), 2);
    assert_eq!(loaded[0].val(), 2);
    assert_eq!(loaded[1].val(), 3);

    // the same values absorbed one by one give the same state
    let mut l2 = Loader::new(LoaderKind::Native, 101);
    let mut t2 = Transcript::new(&mut l2, vec![]);
    t2.absorb(&mut l2, &LoadedScalar::Native { value: 2 });
    t2.absorb(&mut l2, &LoadedScalar::Native { value: 3 });
    assert_eq!(t1.state.val(), t2.state.val());
}

#[test]
fn symbolic_transcript_extends_the_trace() {
    let mut l = Loader::new(LoaderKind::Symbolic, 101);
    let mut t = Transcript::new(&mut l, vec![7]);
    let n0 = l.trace.len();
    assert!(n0 > 0); // the sponge constants are loaded through the trace
    t.read_scalar(&mut l).unwrap();
    t.squeeze_challenge(&mut l);
    assert!(l.trace.len() > n0);
}
