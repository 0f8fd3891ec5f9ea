use book_tutorials::blocking::Blocking;
use book_tutorials::channel::{Channel, Drained, SendError};
use book_tutorials::error::Error;

#[test]
fn new_channel_has_one_producer_and_one_consumer() {
    let channel: Channel<u32> = Channel::new();
    assert_eq!(channel.producers(), 1);
    assert!(channel.has_consumer());
    assert!(!channel.is_closed());
    assert_eq!(channel.len(), 0);
    assert!(channel.is_empty());
}

#[test]
fn single_producer_messages_arrive_in_sending_order() {
    let mut channel = Channel::new();
    for word in ["hi", "from", "the", "thread"] {
        assert_eq!(channel.send(String::from(word)), Ok(()));
    }
    assert_eq!(channel.len(), 4);
    assert_eq!(channel.recv(), Blocking::Ready(Some(String::from("hi"))));
    assert_eq!(channel.recv(), Blocking::Ready(Some(String::from("from"))));
    assert_eq!(channel.recv(), Blocking::Ready(Some(String::from("the"))));
    assert_eq!(channel.recv(), Blocking::Ready(Some(String::from("thread"))));
    assert_eq!(channel.recv(), Blocking::WouldBlock);
}

#[test]
fn receive_on_empty_open_channel_would_block() {
    let mut channel: Channel<u8> = Channel::new();
    assert_eq!(channel.recv(), Blocking::WouldBlock);
    assert_eq!(channel.producers(), 1);
    assert_eq!(channel.send(5), Ok(()));
    assert_eq!(channel.recv(), Blocking::Ready(Some(5)));
}

#[test]
fn receives_interleaved_with_sends_keep_the_order() {
    let mut channel = Channel::new();
    assert_eq!(channel.send(1), Ok(()));
    assert_eq!(channel.send(2), Ok(()));
    assert_eq!(channel.recv(), Blocking::Ready(Some(1)));
    assert_eq!(channel.send(3), Ok(()));
    assert_eq!(channel.recv(), Blocking::Ready(Some(2)));
    assert_eq!(channel.recv(), Blocking::Ready(Some(3)));
    assert_eq!(channel.recv(), Blocking::WouldBlock);
}

#[test]
fn two_producers_keep_their_own_order() {
    let mut channel = Channel::new();
    assert!(channel.clone_producer());
    assert_eq!(channel.producers(), 2);
    let first = ["hi", "from", "the", "thread"];
    let second = ["more", "messages", "for", "you"];
    for i in 0..4 {
        assert_eq!(channel.send((1u8, first[i])), Ok(()));
        assert_eq!(channel.send((2u8, second[i])), Ok(()));
    }
    channel.close_producer();
    channel.close_producer();
    let drained = channel.drain();
    assert!(drained.end_of_stream);
    assert_eq!(drained.messages.len(), 8);
    let from_first: Vec<&str> =
        drained.messages.iter().filter(|m| m.0 == 1).map(|m| m.1).collect();
    let from_second: Vec<&str> =
        drained.messages.iter().filter(|m| m.0 == 2).map(|m| m.1).collect();
    assert_eq!(from_first, first);
    assert_eq!(from_second, second);
}

#[test]
fn every_message_of_every_producer_arrives_then_end_of_stream() {
    let producers = 5usize;
    let each = 7usize;
    let mut channel = Channel::new();
    for _ in 1..producers {
        assert!(channel.clone_producer());
    }
    assert_eq!(channel.producers(), producers);
    let mut got: Vec<(usize, usize)> = Vec::new();
    for round in 0..each {
        for producer in 0..producers {
            assert_eq!(channel.send((producer, round)), Ok(()));
        }
        // The consumer takes a message now and then, while the producers go on.
        if let Blocking::Ready(Some(message)) = channel.recv() {
            got.push(message);
        }
    }
    for _ in 0..producers {
        channel.close_producer();
    }
    assert!(channel.is_closed());
    loop {
        match channel.recv() {
            Blocking::Ready(Some(message)) => got.push(message),
            Blocking::Ready(None) => break,
            Blocking::WouldBlock => panic!("a closed channel never makes the consumer wait"),
        }
    }
    assert_eq!(got.len(), producers * each);
    for producer in 0..producers {
        let rounds: Vec<usize> =
            got.iter().filter(|m| m.0 == producer).map(|m| m.1).collect();
        assert_eq!(rounds, (0..each).collect::<Vec<usize>>());
    }
    assert_eq!(channel.recv(), Blocking::Ready(None));
}

#[test]
fn no_producers_and_no_messages_is_end_of_stream_at_once() {
    let mut channel: Channel<u32> = Channel::new();
    channel.close_producer();
    assert!(channel.is_closed());
    assert_eq!(channel.recv(), Blocking::Ready(None));
    assert_eq!(
        channel.drain(),
        Drained { messages: vec![], end_of_stream: true }
    );
}

#[test]
fn end_of_stream_stays_end_of_stream() {
    let mut channel = Channel::new();
    assert_eq!(channel.send(1), Ok(()));
    channel.close_producer();
    assert_eq!(channel.recv(), Blocking::Ready(Some(1)));
    assert_eq!(channel.recv(), Blocking::Ready(None));
    assert!(!channel.clone_producer());
    assert_eq!(channel.send(2), Err(SendError { value: 2 }));
    channel.close_producer();
    assert_eq!(channel.recv(), Blocking::Ready(None));
    assert_eq!(channel.recv(), Blocking::Ready(None));
    assert_eq!(channel.len(), 0);
}

#[test]
fn buffered_messages_survive_the_close() {
    let mut channel = Channel::new();
    assert_eq!(channel.send('a'), Ok(()));
    assert_eq!(channel.send('b'), Ok(()));
    channel.close_producer();
    assert!(channel.is_closed());
    assert_eq!(channel.recv(), Blocking::Ready(Some('a')));
    assert_eq!(channel.recv(), Blocking::Ready(Some('b')));
    assert_eq!(channel.recv(), Blocking::Ready(None));
}

#[test]
fn channel_closes_only_with_the_last_producer() {
    let mut channel: Channel<u32> = Channel::new();
    assert!(channel.clone_producer());
    assert!(channel.clone_producer());
    assert_eq!(channel.producers(), 3);
    channel.close_producer();
    assert!(!channel.is_closed());
    assert_eq!(channel.recv(), Blocking::WouldBlock);
    channel.close_producer();
    assert!(!channel.is_closed());
    channel.close_producer();
    assert!(channel.is_closed());
    assert_eq!(channel.producers(), 0);
    channel.close_producer();
    assert_eq!(channel.producers(), 0);
}

#[test]
fn send_after_consumer_dropped_fails_with_send_error() {
    let mut channel = Channel::new();
    assert_eq!(channel.send(String::from("kept")), Ok(()));
    channel.drop_consumer();
    assert!(!channel.has_consumer());
    let answer = channel.send(String::from("lost"));
    assert_eq!(answer, Err(SendError { value: String::from("lost") }));
    let error = answer.unwrap_err();
    assert_eq!(error.kind(), Error::SendError);
    assert_eq!(error.into_value(), "lost");
    // The sender goes on as before: it can still clone and close its handle.
    assert!(channel.clone_producer());
    channel.close_producer();
    assert_eq!(channel.producers(), 1);
}

#[test]
fn dropping_the_consumer_discards_what_was_buffered() {
    let mut channel = Channel::new();
    assert_eq!(channel.send(1), Ok(()));
    assert_eq!(channel.send(2), Ok(()));
    channel.drop_consumer();
    assert_eq!(channel.len(), 0);
    assert_eq!(channel.recv(), Blocking::Ready(None));
    assert_eq!(
        channel.drain(),
        Drained { messages: vec![], end_of_stream: true }
    );
}

#[test]
fn drain_of_an_open_channel_takes_what_is_there() {
    let mut channel = Channel::new();
    assert_eq!(channel.send(10), Ok(()));
    assert_eq!(channel.send(20), Ok(()));
    assert_eq!(
        channel.drain(),
        Drained { messages: vec![10, 20], end_of_stream: false }
    );
    assert_eq!(
        channel.drain(),
        Drained { messages: vec![], end_of_stream: false }
    );
    assert_eq!(channel.send(30), Ok(()));
    channel.close_producer();
    assert_eq!(
        channel.drain(),
        Drained { messages: vec![30], end_of_stream: true }
    );
}

#[test]
fn blocking_result_can_be_unpacked() {
    let ready: Blocking<u8> = Blocking::Ready(3);
    let waiting: Blocking<u8> = Blocking::WouldBlock;
    assert!(ready.is_ready());
    assert!(!waiting.is_ready());
    assert_eq!(ready.ready(), Some(3));
    assert_eq!(waiting.ready(), None);
}
