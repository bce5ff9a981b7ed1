use dataflow_control::tcp::{AsyncTcpConnection, ReadStage, HEADER_LEN};

fn receive_all(connection: &mut AsyncTcpConnection, mut stream: &[u8]) -> Vec<Vec<u8>> {
    let mut messages = Vec::new();
    while stream.len() >= connection.wanted() {
        let (now, later) = stream.split_at(connection.wanted());
        if let Some(message) = connection.receive(now.to_vec()) {
            messages.push(message);
            if later.is_empty() {
                break;
            }
        }
        stream = later;
    }
    messages
}

#[test]
fn length_comes_first_least_significant_byte_first() {
    let connection = AsyncTcpConnection::new();
    assert_eq!(connection.send(b"hey"), [3, 0, 0, 0, 0, 0, 0, 0, b'h', b'e', b'y']);
    assert_eq!(connection.send(b""), [0; 8]);
    let long = vec![7u8; 0x0102];
    assert_eq!(connection.send(&long)[..HEADER_LEN], [2, 1, 0, 0, 0, 0, 0, 0]);
}

#[test]
fn messages_arrive_as_they_were_sent() {
    let sender = AsyncTcpConnection::new();
    let messages: Vec<Vec<u8>> = vec![b"one".to_vec(), Vec::new(), vec![0; 300], b"x".to_vec()];
    let mut stream = Vec::new();
    for message in &messages {
        stream.extend(sender.send(message));
    }
    let mut receiver = AsyncTcpConnection::new();
    assert_eq!(receive_all(&mut receiver, &stream), messages);
}

#[test]
fn receiver_waits_for_header_and_then_body() {
    let mut receiver = AsyncTcpConnection::new();
    assert_eq!(receiver.wanted(), 8);
    assert!(receiver.receive(vec![5, 0, 0, 0, 0, 0, 0, 0]).is_none());
    assert_eq!(receiver.stage, ReadStage::Body(5));
    assert_eq!(receiver.wanted(), 5);
    assert_eq!(receiver.receive(b"12345".to_vec()), Some(b"12345".to_vec()));
    assert_eq!(receiver.stage, ReadStage::Header);
}
