use std::sync::Arc;
use zbus_core::connection::raw::{
    frame_size, Connection, InBound, OutBound, Receive, Write, MAX_OUT_QUEUE_LEN,
};
use zbus_core::error::{Error, ErrorKind};
use zbus_core::message::fields::{Field, Fields};
use zbus_core::message::header::{FlagSet, Type};
use zbus_core::message::Message;
use zbus_core::names::{InterfaceName, MemberName, ObjectPath, Signature};

fn test_call(member: &str, fds: Vec<i32>) -> Message {
    let body: Vec<u8> = fds.iter().flat_map(|_| [0u8, 0, 0, 0]).collect();
    let signature =
        if fds.is_empty() { None } else { Some(Signature::try_from(&"h".repeat(fds.len())).unwrap()) };
    Message::method(
        None,
        None,
        ObjectPath::try_from("/").unwrap(),
        Some(InterfaceName::try_from("org.zbus.p2p").unwrap()),
        MemberName::try_from(member).unwrap(),
        signature,
        &body,
        fds,
    )
    .unwrap()
}

/// Drives `from` until its queue is empty, writing at most `chunk` bytes at a
/// time, and gives what went over the wire: the bytes and the file
/// descriptors of each write.
fn flush(from: &mut Connection, chunk: usize) -> Vec<(Vec<u8>, Vec<i32>)> {
    let mut writes = Vec::new();
    while let Some(Write { offset, attach_fds }) = from.try_flush().unwrap() {
        let msg = from.front().unwrap().clone();
        let data = &msg.as_bytes()[offset..];
        let n = data.len().min(chunk);
        let fds = if attach_fds { msg.fds().clone() } else { vec![] };
        writes.push((data[..n].to_vec(), fds));
        from.sent(n).unwrap();
    }
    writes
}

/// Drives `to` with what went over the wire, and gives the messages that it
/// made of it.
fn receive(to: &mut Connection, wire: Vec<(Vec<u8>, Vec<i32>)>) -> Vec<Message> {
    let mut stream: Vec<u8> = Vec::new();
    let mut fds_at: Vec<(usize, Vec<i32>)> = Vec::new();
    for (bytes, fds) in wire {
        fds_at.push((stream.len(), fds));
        stream.extend_from_slice(&bytes);
    }
    let mut pos = 0;
    let mut out = Vec::new();
    loop {
        match to.try_receive_message().unwrap() {
            Receive::Message(m) => out.push(m),
            Receive::Read(n) => {
                if pos == stream.len() {
                    return out;
                }
                let end = (pos + n).min(stream.len());
                let mut fds = Vec::new();
                for (at, f) in &fds_at {
                    if *at >= pos && *at < end {
                        fds.extend_from_slice(f);
                    }
                }
                to.received(&stream[pos..end], fds).unwrap();
                pos = end;
            },
        }
    }
}

#[test]
fn raw_send_receive() {
    let mut conn0 = Connection::new(vec![]);
    let mut conn1 = Connection::new(vec![]);
    let msg = test_call("Test", vec![]);
    conn0.enqueue_message(Arc::new(msg));
    let wire = flush(&mut conn0, usize::MAX);
    let mut got = receive(&mut conn1, wire);
    assert_eq!(got.len(), 1);
    let ret = got.pop().unwrap();
    assert_eq!(ret.to_string(), "Method call Test");
}

#[test]
fn messages_arrive_in_order_and_intact() {
    for chunk in [1usize, 3, 16, 17, 1000] {
        let mut conn0 = Connection::new(vec![]);
        let mut conn1 = Connection::new(vec![]);
        let sent: Vec<Arc<Message>> = (0..6)
            .map(|i| Arc::new(test_call(&format!("Member{i}"), (0..i).collect())))
            .collect();
        for m in &sent {
            conn0.enqueue_message(m.clone());
        }
        let wire = flush(&mut conn0, chunk);
        assert!(conn0.front().is_none());
        let got = receive(&mut conn1, wire);
        assert_eq!(got.len(), sent.len());
        for (i, (a, b)) in sent.iter().zip(got.iter()).enumerate() {
            assert_eq!(a.as_bytes(), b.as_bytes());
            assert_eq!(a.fds(), b.fds());
            assert_eq!(b.recv_seq(), i as u64 + 1);
        }
    }
}

#[test]
fn backpressure() {
    let mut conn = Connection::new(vec![]);
    assert!(!conn.await_out_queue_ready());
    for i in 0..5 {
        // Enqueueing never waits, however many messages wait already.
        conn.enqueue_message(Arc::new(test_call(&format!("M{i}"), vec![])));
        assert_eq!(conn.await_out_queue_ready(), i + 1 >= MAX_OUT_QUEUE_LEN);
    }
    assert!(conn.await_out_queue_ready());
    // The peer is paused: a flush that writes nothing changes nothing.
    assert!(conn.try_flush().unwrap().is_some());
    assert!(conn.await_out_queue_ready());
    // The peer goes on.
    let mut drained = false;
    while let Some(w) = conn.try_flush().unwrap() {
        let n = conn.front().unwrap().as_bytes().len() - w.offset;
        drained = conn.sent(n).unwrap();
    }
    assert!(drained);
    assert!(!conn.await_out_queue_ready());
    conn.enqueue_message(Arc::new(test_call("Next", vec![])));
    assert!(!conn.await_out_queue_ready());
    assert_eq!(MAX_OUT_QUEUE_LEN, 4);
}

#[test]
fn fd_ordering() {
    let mut conn = Connection::new(vec![]);
    let a = Arc::new(test_call("A", vec![30, 31]));
    let b = Arc::new(test_call("B", vec![40]));
    conn.enqueue_message(a.clone());
    conn.enqueue_message(b.clone());
    let wire = flush(&mut conn, 10);
    let a_writes = (a.as_bytes().len() + 9) / 10;
    let with_fds: Vec<(usize, Vec<i32>)> = wire
        .iter()
        .enumerate()
        .filter(|(_, (_, fds))| !fds.is_empty())
        .map(|(i, (_, fds))| (i, fds.clone()))
        .collect();
    assert_eq!(with_fds, vec![(0, vec![30, 31]), (a_writes, vec![40])]);
    let mut peer = Connection::new(vec![]);
    let got = receive(&mut peer, wire);
    assert_eq!(got[0].fds(), &vec![30, 31]);
    assert_eq!(got[1].fds(), &vec![40]);
}

#[test]
fn out_bound_steps() {
    let mut out = OutBound::new();
    assert_eq!(out.len(), 0);
    assert!(out.next_write().is_none());
    assert!(out.front().is_none());
    assert!(!out.is_full());
    assert_eq!(out.wrote(0).unwrap_err().kind(), ErrorKind::InputOutput);
    let m = Arc::new(test_call("A", vec![]));
    let len = m.as_bytes().len();
    out.enqueue(m);
    assert_eq!(out.next_write(), Some(Write { offset: 0, attach_fds: true }));
    assert_eq!(out.wrote(0).unwrap(), false);
    assert_eq!(out.next_write(), Some(Write { offset: 0, attach_fds: true }));
    assert_eq!(out.wrote(5).unwrap(), false);
    assert_eq!(out.next_write(), Some(Write { offset: 5, attach_fds: false }));
    assert_eq!(out.wrote(len).unwrap_err().kind(), ErrorKind::InputOutput);
    assert_eq!(out.next_write(), Some(Write { offset: 5, attach_fds: false }));
    assert_eq!(out.wrote(len - 5).unwrap(), true);
    assert!(out.next_write().is_none());
    assert_eq!(out.len(), 0);
}

#[test]
fn eof_before_header() {
    let mut conn = Connection::new(vec![]);
    assert!(matches!(conn.try_receive_message().unwrap(), Receive::Read(16)));
    conn.received(&[b'l', 1, 0, 1], vec![]).unwrap();
    assert!(matches!(conn.try_receive_message().unwrap(), Receive::Read(12)));
    // A read that gives nothing is the end of the transport.
    assert_eq!(conn.received(&[], vec![]).unwrap_err(), Error::UnexpectedEof);
    let mut fresh = InBound::new(vec![]);
    assert_eq!(fresh.fill(&[], vec![]).unwrap_err(), Error::UnexpectedEof);
    assert_eq!(fresh.fill(&[], vec![]).unwrap_err().kind(), ErrorKind::InputOutput);
}

#[test]
fn eof_in_body() {
    let m = test_call("Test", vec![]);
    let bytes = m.as_bytes();
    let mut inbound = InBound::new(bytes[..20].to_vec());
    match inbound.poll().unwrap() {
        Receive::Read(n) => assert_eq!(n, bytes.len() - 20),
        Receive::Message(_) => panic!("a part of a message was given out"),
    }
    assert_eq!(inbound.fill(&[], vec![]).unwrap_err(), Error::UnexpectedEof);
}

#[test]
fn bad_frames() {
    let mut conn = Connection::new(vec![b'X', 1, 0, 1, 0, 0, 0, 0, 1, 0, 0, 0, 0, 0, 0, 0]);
    assert_eq!(conn.try_receive_message().unwrap_err(), Error::IncorrectEndian);
    let mut conn = Connection::new(vec![b'l', 1, 0, 2, 0, 0, 0, 0, 1, 0, 0, 0, 0, 0, 0, 0]);
    assert_eq!(conn.try_receive_message().unwrap_err(), Error::UnknownProtocol);
    // A message of 128 MiB and one byte.
    let mut header = vec![b'l', 1, 0, 1];
    header.extend_from_slice(&(128u32 * 1024 * 1024 - 15).to_le_bytes());
    header.extend_from_slice(&[1, 0, 0, 0, 0, 0, 0, 0]);
    assert_eq!(frame_size(&header).unwrap_err(), Error::ExcessData);
    let mut conn = Connection::new(header.clone());
    assert_eq!(conn.try_receive_message().unwrap_err(), Error::ExcessData);
    // One byte less is fine.
    header[4..8].copy_from_slice(&(128u32 * 1024 * 1024 - 16).to_le_bytes());
    assert_eq!(frame_size(&header).unwrap(), 128 * 1024 * 1024);
}

#[test]
fn leftover_of_the_handshake_starts_the_first_message() {
    let a = test_call("A", vec![]);
    let b = test_call("B", vec![]);
    let mut both = a.as_bytes().to_vec();
    both.extend_from_slice(&b.as_bytes()[..7]);
    let mut conn = Connection::new(both);
    match conn.try_receive_message().unwrap() {
        Receive::Message(m) => {
            assert_eq!(m.as_bytes(), a.as_bytes());
            assert_eq!(m.recv_seq(), 1);
        },
        Receive::Read(_) => panic!("the first message was there"),
    }
    assert!(matches!(conn.try_receive_message().unwrap(), Receive::Read(9)));
    conn.received(&b.as_bytes()[7..16], vec![]).unwrap();
    match conn.try_receive_message().unwrap() {
        Receive::Read(n) => assert_eq!(n, b.as_bytes().len() - 16),
        Receive::Message(_) => panic!("a part of a message was given out"),
    }
    conn.received(&b.as_bytes()[16..], vec![]).unwrap();
    match conn.try_receive_message().unwrap() {
        Receive::Message(m) => {
            assert_eq!(m.as_bytes(), b.as_bytes());
            assert_eq!(m.recv_seq(), 2);
        },
        Receive::Read(_) => panic!("the second message was there"),
    }
}

#[test]
fn closed_connection_fails() {
    let mut conn = Connection::new(vec![]);
    conn.enqueue_message(Arc::new(test_call("A", vec![])));
    assert!(!conn.is_closed());
    conn.close();
    assert!(conn.is_closed());
    assert_eq!(conn.try_flush().unwrap_err().kind(), ErrorKind::InputOutput);
    assert_eq!(conn.sent(1).unwrap_err().kind(), ErrorKind::InputOutput);
    assert_eq!(conn.try_receive_message().unwrap_err().kind(), ErrorKind::InputOutput);
    assert_eq!(conn.received(&[1], vec![]).unwrap_err().kind(), ErrorKind::InputOutput);
}

#[test]
fn a_bad_message_is_consumed() {
    // A method call without its member: the frame is fine, the message not.
    let mut f = Fields::new();
    f.add(Field::ReplySerial(4));
    let reply =
        Message::encode(Type::MethodReturn, FlagSet::empty(), f, None, &[], vec![]).unwrap();
    let mut bytes = reply.as_bytes().to_vec();
    bytes[1] = 1;
    let good = test_call("A", vec![]);
    bytes.extend_from_slice(good.as_bytes());
    let mut inbound = InBound::with_sequence(bytes, 10);
    assert_eq!(inbound.poll().unwrap_err(), Error::MissingField);
    match inbound.poll().unwrap() {
        Receive::Message(m) => {
            assert_eq!(m.as_bytes(), good.as_bytes());
            assert_eq!(m.recv_seq(), 12);
        },
        Receive::Read(_) => panic!("the second message was there"),
    }
}
