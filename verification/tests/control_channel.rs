use synth_bridge::channel::ControlChannel;

#[test]
fn channel_preserves_send_order() {
    let mut channel: ControlChannel<&str> = ControlChannel::new(8);
    assert_eq!(channel.send("C1"), None);
    assert_eq!(channel.send("C2"), None);
    assert_eq!(channel.send("C3"), None);
    assert_eq!(channel.len(), 3);
    assert_eq!(channel.receive_all(), vec!["C1", "C2", "C3"]);
    assert!(channel.is_empty());
}

#[test]
fn try_receive_takes_the_oldest_first() {
    let mut channel: ControlChannel<u32> = ControlChannel::new(3);
    assert_eq!(channel.try_receive(), None);
    channel.send(1);
    channel.send(2);
    channel.send(3);
    assert_eq!(channel.try_receive(), Some(1));
    assert_eq!(channel.try_receive(), Some(2));
    channel.send(4);
    assert_eq!(channel.try_receive(), Some(3));
    assert_eq!(channel.try_receive(), Some(4));
    assert_eq!(channel.try_receive(), None);
    assert_eq!(channel.len(), 0);
}

#[test]
fn nothing_is_lost_up_to_capacity() {
    let mut channel: ControlChannel<usize> = ControlChannel::new(1024);
    for item in 0..1024 {
        assert_eq!(channel.send(item), None);
    }
    assert_eq!(channel.len(), 1024);
    assert_eq!(channel.capacity(), 1024);
    let items = channel.receive_all();
    assert_eq!(items, (0..1024).collect::<Vec<usize>>());
}

#[test]
fn overflow_pushes_out_the_oldest() {
    let mut channel: ControlChannel<u32> = ControlChannel::new(3);
    assert_eq!(channel.send(1), None);
    assert_eq!(channel.send(2), None);
    assert_eq!(channel.send(3), None);
    assert_eq!(channel.send(4), Some(1));
    assert_eq!(channel.send(5), Some(2));
    assert_eq!(channel.len(), 3);
    assert_eq!(channel.receive_all(), vec![3, 4, 5]);
}

#[test]
fn channel_without_room_hands_everything_back() {
    let mut channel: ControlChannel<u32> = ControlChannel::new(0);
    assert_eq!(channel.capacity(), 0);
    assert_eq!(channel.send(7), Some(7));
    assert!(channel.is_empty());
    assert_eq!(channel.try_receive(), None);
    assert_eq!(channel.receive_all(), Vec::<u32>::new());
}

#[test]
fn receive_all_on_empty_channel_yields_nothing() {
    let mut channel: ControlChannel<u32> = ControlChannel::new(4);
    assert_eq!(channel.receive_all(), Vec::<u32>::new());
    channel.send(9);
    assert_eq!(channel.receive_all(), vec![9]);
    assert_eq!(channel.receive_all(), Vec::<u32>::new());
}
