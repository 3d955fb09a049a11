use pngtubers::spectrum::SAMPLE_BLOCK_LEN;
use tokio::sync::mpsc::channel;
use tokio::sync::mpsc::error::TrySendError;

#[test]
fn transport_preserves_fifo_order() {
    let (tx, mut rx) = channel::<Vec<f32>>(100);
    let a = vec![0.1f32; SAMPLE_BLOCK_LEN];
    let b = vec![0.2f32; SAMPLE_BLOCK_LEN];
    let c = vec![0.3f32; SAMPLE_BLOCK_LEN];
    tx.try_send(a.clone()).unwrap();
    tx.try_send(b.clone()).unwrap();
    tx.try_send(c.clone()).unwrap();
    assert_eq!(rx.try_recv().unwrap(), a);
    assert_eq!(rx.try_recv().unwrap(), b);
    assert_eq!(rx.try_recv().unwrap(), c);
    assert!(rx.try_recv().is_err());
}

#[test]
fn full_transport_drops_newest_without_blocking() {
    let (tx, mut rx) = channel::<u32>(2);
    tx.try_send(1).unwrap();
    tx.try_send(2).unwrap();
    assert!(matches!(tx.try_send(3), Err(TrySendError::Full(3))));
    assert_eq!(rx.try_recv().unwrap(), 1);
    assert_eq!(rx.try_recv().unwrap(), 2);
    assert!(rx.try_recv().is_err());
}
