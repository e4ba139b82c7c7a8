use fos::descriptor::IOError;
use fos::descriptor::ReadableDescriptor;
use fos::descriptor::ReadableWritableDescriptor;
use fos::descriptor::WritableDescriptor;
use fos::future::block;
use fos::future::Poll;
use fos::pipe::new_pipe;
use fos::pipe::PipePool;

const STR_A: &str = "a";
const STR_B: &str = "b";
const STR_AB: &str = "ab";

const READ_SIZE: u32 = 100;

#[test]
fn pipe_transmit_sequntial() {
    let mut pool = PipePool::new();
    let (rx, tx) = new_pipe(&mut pool);

    // First message
    let sent = tx.write(&mut pool, STR_A);
    let recv = block(&mut rx.read(READ_SIZE), &mut pool, 1);

    assert_eq!(sent, Ok(()));
    assert_eq!(recv, Poll::Ready(Ok(STR_A.to_string())));

    // Second message
    let sent = tx.write(&mut pool, &STR_B);
    let recv = block(&mut rx.read(READ_SIZE), &mut pool, 1);

    assert_eq!(sent, Ok(()));
    assert_eq!(recv, Poll::Ready(Ok(STR_B.to_string())));
}

#[test]
fn pipe_transmit_twice() {
    let mut pool = PipePool::new();
    let (rx, tx) = new_pipe(&mut pool);

    let sent1 = tx.write(&mut pool, &STR_A);
    let sent2 = tx.write(&mut pool, &STR_B);

    let recv = block(&mut rx.read(READ_SIZE), &mut pool, 1);

    assert_eq!(sent1, Ok(()));
    assert_eq!(sent2, Ok(()));
    assert_eq!(recv, Poll::Ready(Ok(STR_AB.to_string())));
}

#[test]
fn pipe_rx_closed() {
    let mut pool = PipePool::new();
    let (rx, tx) = new_pipe(&mut pool);
    rx.close(&mut pool);

    let sent = tx.write(&mut pool, &STR_A);

    assert_eq!(sent, Err(IOError::ChannelClosed))
}

#[test]
fn pipe_tx_closed() {
    let mut pool = PipePool::new();
    let (rx, tx) = new_pipe(&mut pool);
    tx.close(&mut pool);

    let recv1 = block(&mut rx.read(READ_SIZE), &mut pool, 1);
    let recv2 = block(&mut rx.read_char(), &mut pool, 1);

    assert_eq!(recv1, Poll::Ready(Err(IOError::ChannelClosed)));
    assert_eq!(recv2, Poll::Ready(Err(IOError::ChannelClosed)));
}

#[test]
fn pipe_multiple_senders() {
    let mut pool = PipePool::new();
    let (rx, tx) = new_pipe(&mut pool);

    let tx1 = std::rc::Rc::new(tx);
    let tx2 = std::rc::Rc::clone(&tx1);

    let send1 = tx1.write(&mut pool, &STR_A);
    let send2 = tx2.write(&mut pool, &STR_B);

    let recv = block(&mut rx.read(READ_SIZE), &mut pool, 1);

    assert_eq!(send1, Ok(()));
    assert_eq!(send2, Ok(()));
    assert_eq!(recv, Poll::Ready(Ok(STR_AB.to_string())));
}

#[test]
fn pipe_send_char() {
    let mut pool = PipePool::new();
    let (rx, tx) = new_pipe(&mut pool);

    let send1 = tx.write(&mut pool, &STR_A);
    let send2 = tx.write_char(&mut pool, 'b');

    let recv = block(&mut rx.read(READ_SIZE), &mut pool, 1);

    assert_eq!(send1, Ok(()));
    assert_eq!(send2, Ok(()));
    assert_eq!(recv, Poll::Ready(Ok(STR_AB.to_string())));
}

#[test]
fn pipe_read_char() {
    let mut pool = PipePool::new();
    let (rx, tx) = new_pipe(&mut pool);

    let send = tx.write(&mut pool, &STR_AB);

    let recv1 = block(&mut rx.read_char(), &mut pool, 1);
    let recv2 = block(&mut rx.read(READ_SIZE), &mut pool, 1);

    assert_eq!(send, Ok(()));
    assert_eq!(recv1, Poll::Ready(Ok('a')));
    assert_eq!(recv2, Poll::Ready(Ok(STR_B.to_string())));
}

#[test]
fn pipe_stays_open_until_the_last_writer_leaves() {
    let mut pool = PipePool::new();
    let (rx, tx) = new_pipe(&mut pool);

    let second = tx.clone(&mut pool).unwrap();
    assert_eq!(pool.writers(0), Some(2));

    tx.close(&mut pool);
    assert_eq!(pool.writers(0), Some(1));
    assert_eq!(second.write(&mut pool, "x"), Ok(()));

    second.close(&mut pool);
    assert_eq!(pool.writers(0), Some(0));
    assert_eq!(rx.read_sync(&mut pool, READ_SIZE), Ok("x".to_string()));
    assert_eq!(rx.read_sync(&mut pool, READ_SIZE), Err(IOError::ChannelClosed));
    assert_eq!(rx.read_char_sync(&mut pool), Err(IOError::ChannelClosed));
}

#[test]
fn pipe_sync_reads_do_not_wait() {
    let mut pool = PipePool::new();
    let (rx, tx) = new_pipe(&mut pool);

    assert_eq!(rx.read_sync(&mut pool, READ_SIZE), Err(IOError::Empty));
    assert_eq!(rx.read_char_sync(&mut pool), Err(IOError::Empty));
    assert_eq!(block(&mut rx.read(READ_SIZE), &mut pool, 3), Poll::Pending);

    assert_eq!(tx.write(&mut pool, "hey"), Ok(()));
    assert_eq!(rx.read_char_sync(&mut pool), Ok('h'));
    assert_eq!(rx.read_sync(&mut pool, READ_SIZE), Ok("ey".to_string()));
}

#[test]
fn pipe_writer_cannot_be_cloned_without_a_reader() {
    let mut pool = PipePool::new();
    let (rx, tx) = new_pipe(&mut pool);
    rx.close(&mut pool);

    assert_eq!(pool.writers(0), None);
    assert!(matches!(tx.clone(&mut pool), Err(IOError::ChannelClosed)));
    assert_eq!(pool.writers(0), None);
}

#[test]
fn descriptor_pairs_a_reader_with_a_writer() {
    let mut pool = PipePool::new();
    let (rx, tx) = new_pipe(&mut pool);
    let both = ReadableWritableDescriptor::new(rx, tx);

    assert_eq!(both.write(&mut pool, "a"), Ok(()));
    assert_eq!(both.write_char(&mut pool, 'b'), Ok(()));
    let extra = both.clone(&mut pool).unwrap();
    assert_eq!(extra.write(&mut pool, "c"), Ok(()));
    assert_eq!(block(&mut both.read_char(), &mut pool, 1), Poll::Ready(Ok('a')));
    assert_eq!(block(&mut both.read(READ_SIZE), &mut pool, 1), Poll::Ready(Ok("bc".to_string())));
    assert_eq!(both.read_sync(&mut pool, READ_SIZE), Err(IOError::Empty));
    assert_eq!(both.read_char_sync(&mut pool), Err(IOError::Empty));

    let (writer, reader) = both.close_read();
    reader.close(&mut pool);
    assert_eq!(writer.write(&mut pool, "d"), Err(IOError::ChannelClosed));
    assert_eq!(extra.write(&mut pool, "d"), Err(IOError::ChannelClosed));
}
