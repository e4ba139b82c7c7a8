use fos::future::block;
use fos::future::Poll;
use fos::string_channel::new_string_channel;
use fos::string_channel::ChannelPool;

const STR_A: &str = "a";
const STR_B: &str = "b";
const STR_AB: &str = "ab";

#[test]
fn string_channel_transmit_sequntial() {
    let mut pool = ChannelPool::new();
    let (tx, rx) = new_string_channel(&mut pool);

    // First message
    let sent = tx.send(&mut pool, STR_A);
    let recv = block(&mut rx.read(), &mut pool, 1);

    assert_eq!(sent, Some(()));
    assert_eq!(recv, Poll::Ready(Some(STR_A.to_string())));

    // Second message
    let sent = tx.send(&mut pool, &STR_B);
    let recv = block(&mut rx.read(), &mut pool, 1);

    assert_eq!(sent, Some(()));
    assert_eq!(recv, Poll::Ready(Some(STR_B.to_string())));
}

#[test]
fn string_channel_transmit_twice() {
    let mut pool = ChannelPool::new();
    let (tx, rx) = new_string_channel(&mut pool);

    let sent1 = tx.send(&mut pool, &STR_A);
    let sent2 = tx.send(&mut pool, &STR_B);

    let recv = block(&mut rx.read(), &mut pool, 1);

    assert_eq!(sent1, Some(()));
    assert_eq!(sent2, Some(()));
    assert_eq!(recv, Poll::Ready(Some(STR_AB.to_string())));
}

#[test]
fn string_channel_rx_closed() {
    let mut pool = ChannelPool::new();
    let (tx, rx) = new_string_channel(&mut pool);
    rx.close(&mut pool);

    let sent = tx.send(&mut pool, &STR_A);

    assert_eq!(sent, None)
}

#[test]
fn string_channel_tx_closed() {
    let mut pool = ChannelPool::new();
    let (tx, rx) = new_string_channel(&mut pool);
    tx.close(&mut pool);

    let recv1 = block(&mut rx.read(), &mut pool, 1);
    let recv2 = block(&mut rx.read_char(), &mut pool, 1);

    assert_eq!(recv1, Poll::Ready(None));
    assert_eq!(recv2, Poll::Ready(None));
}

#[test]
fn string_channel_multiple_senders() {
    let mut pool = ChannelPool::new();
    let (tx, rx) = new_string_channel(&mut pool);

    let tx1 = std::rc::Rc::new(tx);
    let tx2 = std::rc::Rc::clone(&tx1);

    let send1 = tx1.send(&mut pool, &STR_A);
    let send2 = tx2.send(&mut pool, &STR_B);

    let recv = block(&mut rx.read(), &mut pool, 1);

    assert_eq!(send1, Some(()));
    assert_eq!(send2, Some(()));
    assert_eq!(recv, Poll::Ready(Some(STR_AB.to_string())));
}

#[test]
fn string_channel_send_char() {
    let mut pool = ChannelPool::new();
    let (tx, rx) = new_string_channel(&mut pool);

    let send1 = tx.send(&mut pool, &STR_A);
    let send2 = tx.send_char(&mut pool, 'b');

    let recv = block(&mut rx.read(), &mut pool, 1);

    assert_eq!(send1, Some(()));
    assert_eq!(send2, Some(()));
    assert_eq!(recv, Poll::Ready(Some(STR_AB.to_string())));
}

#[test]
fn string_channel_read_char() {
    let mut pool = ChannelPool::new();
    let (tx, rx) = new_string_channel(&mut pool);

    let send = tx.send(&mut pool, &STR_AB);

    let recv1 = block(&mut rx.read_char(), &mut pool, 1);
    let recv2 = block(&mut rx.read(), &mut pool, 1);

    assert_eq!(send, Some(()));
    assert_eq!(recv1, Poll::Ready(Some('a')));
    assert_eq!(recv2, Poll::Ready(Some(STR_B.to_string())));
}

#[test]
fn read_on_open_empty_channel_stays_pending() {
    let mut pool = ChannelPool::new();
    let (tx, rx) = new_string_channel(&mut pool);

    assert_eq!(block(&mut rx.read(), &mut pool, 5), Poll::Pending);
    assert_eq!(block(&mut rx.read_char(), &mut pool, 5), Poll::Pending);
    assert_eq!(tx.send(&mut pool, "late"), Some(()));
    assert_eq!(block(&mut rx.read(), &mut pool, 5), Poll::Ready(Some("late".to_string())));
}

#[test]
fn data_sent_before_close_is_still_read() {
    let mut pool = ChannelPool::new();
    let (tx, rx) = new_string_channel(&mut pool);

    assert_eq!(tx.send(&mut pool, "xy"), Some(()));
    tx.close(&mut pool);

    assert_eq!(pool.is_closed(0), true);
    assert_eq!(block(&mut rx.read(), &mut pool, 1), Poll::Ready(Some("xy".to_string())));
    assert_eq!(block(&mut rx.read(), &mut pool, 1), Poll::Ready(None));
    assert_eq!(block(&mut rx.read(), &mut pool, 1), Poll::Ready(None));
}

#[test]
fn weak_writer_sends_while_open() {
    let mut pool = ChannelPool::new();
    let (tx, rx) = new_string_channel(&mut pool);
    let weak = tx.downgrade();

    assert_eq!(weak.send(&mut pool, "a"), Some(()));
    assert_eq!(weak.send_char(&mut pool, 'b'), Some(()));
    tx.close(&mut pool);
    assert_eq!(weak.send(&mut pool, "c"), None);
    assert_eq!(weak.send_char(&mut pool, 'd'), None);
    assert_eq!(block(&mut rx.read(), &mut pool, 1), Poll::Ready(Some("ab".to_string())));
}

#[test]
fn channels_of_one_pool_are_separate() {
    let mut pool = ChannelPool::new();
    let (tx1, rx1) = new_string_channel(&mut pool);
    let (tx2, rx2) = new_string_channel(&mut pool);

    assert_eq!(pool.len(), 2);
    assert_eq!(tx1.send(&mut pool, "one"), Some(()));
    assert_eq!(tx2.send(&mut pool, "two"), Some(()));
    rx1.close(&mut pool);
    assert_eq!(tx1.send(&mut pool, "more"), None);
    assert_eq!(tx2.send(&mut pool, "!"), Some(()));
    assert_eq!(block(&mut rx2.read(), &mut pool, 1), Poll::Ready(Some("two!".to_string())));
}
