use oxidicom::batcher::Batcher;

#[test]
fn test_batcher() {
    let batches0 = Batcher::new(3);
    let (batches1, r0) = batches0.push("ChRIS");
    assert_eq!(r0, None);
    let (batches2, r1) = batches1.push("is");
    assert_eq!(r1, None);
    let (batches3, r2) = batches2.push("an");
    assert_eq!(r2, Some(vec!["ChRIS", "is", "an"]));
    let (batches4, r3) = batches3.push("open-source");
    assert_eq!(r3, None);
    let (batches5, r4) = batches4.push("software");
    assert_eq!(r4, None);
    assert_eq!(batches5.into_inner(), vec!["open-source", "software"])
}

#[test]
fn batch_of_one_is_returned_at_once() {
    let b = Batcher::new(1);
    let (b, r) = b.push(7u32);
    assert_eq!(r, Some(vec![7u32]));
    assert!(b.into_inner().is_empty());
}
