use web_audio_control::ids::AudioNodeIdProvider;

#[test]
fn test_provide_node_id() {
    let (mut id_producer, id_consumer) = llq::Queue::new().split();
    let mut provider = AudioNodeIdProvider::new(id_consumer);
    assert_eq!(provider.get().0, 0); // newly assigned
    assert_eq!(provider.get().0, 1); // newly assigned
    id_producer.push(llq::Node::new(0));
    assert_eq!(provider.get().0, 0); // reused
    assert_eq!(provider.get().0, 2); // newly assigned
}

#[test]
fn oldest_decommissioned_id_is_used_first() {
    let (mut id_producer, id_consumer) = llq::Queue::new().split();
    let mut provider = AudioNodeIdProvider::new(id_consumer);
    for id in [7, 5, 9] {
        id_producer.push(llq::Node::new(id));
    }
    // each assignment takes one node out of the queue
    let ids: Vec<u64> = (0..5).map(|_| provider.get().0).collect();
    assert_eq!(ids, vec![7, 5, 9, 0, 1]);
}
