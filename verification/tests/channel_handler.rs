use fos::channel_handler::new_channel_handler;
use fos::channel_handler::release;
use fos::channel_handler::ChannelHandler;
use fos::future::block;
use fos::future::Poll;
use fos::string_channel::new_string_channel;
use fos::string_channel::ChannelPool;
use std::rc::Rc;

const STR_A: &str = "a";

#[test]
fn simple_handler() {
    let mut pool = ChannelPool::new();
    let channel = new_channel_handler(&mut pool);

    // First message
    let sent = channel.write(&mut pool, STR_A);
    let recv = block(&mut channel.read(), &mut pool, 1);

    assert_eq!(sent, Some(()));
    assert_eq!(recv, Poll::Ready(Some(STR_A.to_string())));
}

#[test]
fn copy_handler() {
    let mut pool = ChannelPool::new();
    let reciver = new_channel_handler(&mut pool);
    let sender = reciver.copy();

    // First message
    let sent = sender.write(&mut pool, STR_A);
    let recv = block(&mut reciver.read(), &mut pool, 1);

    assert_eq!(sent, Some(()));
    assert_eq!(recv, Poll::Ready(Some(STR_A.to_string())));
}

#[test]
fn close_writeable() {
    let mut pool = ChannelPool::new();
    let reciver = new_channel_handler(&mut pool);
    let sender = reciver.copy();
    let reciver = reciver.close_write(&mut pool);

    // First message
    let sent = sender.write(&mut pool, STR_A);
    let recv = block(&mut reciver.read(), &mut pool, 1);

    assert_eq!(sent, Some(()));
    assert_eq!(recv, Poll::Ready(Some(STR_A.to_string())));
}

#[test]
fn two_writers_one_read_in_send_order() {
    let mut pool = ChannelPool::new();
    let first = ChannelHandler::new(&mut pool);
    let second = first.copy();

    assert_eq!(first.write(&mut pool, "ab"), Some(()));
    assert_eq!(second.write_char(&mut pool, 'c'), Some(()));
    assert_eq!(first.write_char(&mut pool, 'd'), Some(()));

    assert_eq!(block(&mut first.read(), &mut pool, 1), Poll::Ready(Some("abcd".to_string())));
    assert_eq!(block(&mut first.read(), &mut pool, 1), Poll::Pending);
}

#[test]
fn channel_closes_when_the_last_writer_is_closed() {
    let mut pool = ChannelPool::new();
    let reader = ChannelHandler::new(&mut pool);
    let writer = reader.copy();
    let reader = reader.close_write(&mut pool);

    assert_eq!(pool.is_closed(0), false);
    assert_eq!(writer.write(&mut pool, "bye"), Some(()));
    let _spent = writer.close_write(&mut pool);

    assert_eq!(pool.is_closed(0), true);
    assert_eq!(block(&mut reader.read_char(), &mut pool, 1), Poll::Ready(Some('b')));
    assert_eq!(block(&mut reader.read(), &mut pool, 1), Poll::Ready(Some("ye".to_string())));
    assert_eq!(block(&mut reader.read(), &mut pool, 1), Poll::Ready(None));
    assert_eq!(block(&mut reader.read_char(), &mut pool, 1), Poll::Ready(None));
}

#[test]
fn closing_the_reader_fails_the_writers() {
    let mut pool = ChannelPool::new();
    let handler = ChannelHandler::new(&mut pool);
    let writer = handler.copy();
    let rest = handler.close_read(&mut pool);

    assert_eq!(pool.is_closed(0), true);
    assert_eq!(writer.write(&mut pool, "a"), None);
    assert_eq!(rest.write_char(&mut pool, 'a'), None);
}

#[test]
fn raw_handler_without_an_end_fails_at_once() {
    let mut pool = ChannelPool::new();
    let handler = ChannelHandler::new(&mut pool);
    let raw = handler.copy_raw();

    // the copy has no reading end
    assert_eq!(block(&mut raw.read(), &mut pool, 1), Poll::Ready(None));
    assert_eq!(block(&mut raw.read_char(), &mut pool, 1), Poll::Ready(None));
    assert_eq!(raw.send(&mut pool, "x"), Some(()));

    // the reading half of a split has no writing end
    let (reader, writer) = handler.split();
    assert_eq!(reader.raw().send(&mut pool, "y"), None);
    assert_eq!(reader.raw().send_char(&mut pool, 'y'), None);
    assert_eq!(writer.into_raw().send_char(&mut pool, 'z'), Some(()));
    assert_eq!(block(&mut reader.read(), &mut pool, 1), Poll::Ready(Some("xz".to_string())));
}

#[test]
fn release_closes_only_for_the_sole_holder() {
    let mut pool = ChannelPool::new();
    let (tx, _rx) = new_string_channel(&mut pool);
    let first = Rc::new(tx);
    let second = Rc::clone(&first);

    assert_eq!(release(Rc::try_unwrap(first), &mut pool), false);
    assert_eq!(pool.is_closed(0), false);
    assert_eq!(release(Rc::try_unwrap(second), &mut pool), true);
    assert_eq!(pool.is_closed(0), true);
}

#[test]
fn raw_copy_shares_the_writer() {
    let mut pool = ChannelPool::new();
    let handler = ChannelHandler::new(&mut pool);
    let raw = handler.copy_raw();
    let again = raw.copy();

    let rest = raw.drop_writer(&mut pool);
    assert_eq!(rest.send(&mut pool, "x"), None);
    assert_eq!(pool.is_closed(0), false);
    assert_eq!(again.send(&mut pool, "x"), Some(()));

    let reader_gone = handler.into_raw().drop_reader(&mut pool);
    assert_eq!(pool.is_closed(0), true);
    assert_eq!(reader_gone.send(&mut pool, "x"), None);
}
