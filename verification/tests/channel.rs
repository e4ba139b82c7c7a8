use fos::channel::new_channel;
use fos::channel::Channels;
use fos::future::block;
use fos::future::Poll;
use std::rc::Rc;

#[test]
fn channel_transmit_sequntial() {
    let mut pool = Channels::new();
    let (tx, rx) = new_channel(&mut pool);

    // First message
    let sent = tx.send(&mut pool, 5);
    let recv = block(&mut rx.read(), &mut pool, 1);

    assert_eq!(sent, Some(()));
    assert_eq!(recv, Poll::Ready(Some(5)));

    // Second message
    let sent = tx.send(&mut pool, 6);
    let recv = block(&mut rx.read(), &mut pool, 1);

    assert_eq!(sent, Some(()));
    assert_eq!(recv, Poll::Ready(Some(6)));
}

#[test]
fn channel_transmit_twice() {
    let mut pool = Channels::new();
    let (tx, rx) = new_channel(&mut pool);

    let sent1 = tx.send(&mut pool, 5);
    let sent2 = tx.send(&mut pool, 6);

    let recv1 = block(&mut rx.read(), &mut pool, 1);
    let recv2 = block(&mut rx.read(), &mut pool, 1);

    assert_eq!(sent1, Some(()));
    assert_eq!(recv1, Poll::Ready(Some(5)));

    assert_eq!(sent2, Some(()));
    assert_eq!(recv2, Poll::Ready(Some(6)));
}

#[test]
fn channel_rx_closed() {
    let mut pool = Channels::new();
    let (tx, rx) = new_channel(&mut pool);
    rx.close(&mut pool);

    let sent = tx.send(&mut pool, 5);

    assert_eq!(sent, None)
}

#[test]
fn channel_tx_closed() {
    let mut pool = Channels::<()>::new();
    let (tx, rx) = new_channel::<()>(&mut pool);
    if let Ok(tx) = Rc::try_unwrap(tx) {
        tx.close(&mut pool);
    }

    let recv = block(&mut rx.read(), &mut pool, 1);

    assert_eq!(recv, Poll::Ready(None))
}

#[test]
fn channel_multiple_senders() {
    let mut pool = Channels::new();
    let (tx1, rx) = new_channel(&mut pool);
    let tx2 = Rc::clone(&tx1);

    let send1 = tx1.send(&mut pool, 5);
    let send2 = tx2.send(&mut pool, 6);

    let recv1 = block(&mut rx.read(), &mut pool, 1);
    let recv2 = block(&mut rx.read(), &mut pool, 1);

    assert_eq!(send1, Some(()));
    assert_eq!(send2, Some(()));
    assert_eq!(recv1, Poll::Ready(Some(5)));
    assert_eq!(recv2, Poll::Ready(Some(6)));
}

#[test]
fn channel_keeps_items_sent_before_close() {
    let mut pool = Channels::new();
    let (tx, rx) = new_channel(&mut pool);

    assert_eq!(tx.send(&mut pool, 'x'), Some(()));
    assert_eq!(tx.send(&mut pool, 'y'), Some(()));
    if let Ok(tx) = Rc::try_unwrap(tx) {
        tx.close(&mut pool);
    }

    assert_eq!(block(&mut rx.read(), &mut pool, 1), Poll::Ready(Some('x')));
    assert_eq!(block(&mut rx.read(), &mut pool, 1), Poll::Ready(Some('y')));
    assert_eq!(block(&mut rx.read(), &mut pool, 1), Poll::Ready(None));
}

#[test]
fn channel_read_waits_while_open_and_empty() {
    let mut pool = Channels::<u8>::new();
    let (_tx, rx) = new_channel(&mut pool);

    assert_eq!(block(&mut rx.read(), &mut pool, 4), Poll::Pending);
}
