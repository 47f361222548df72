use jete::mailbox::Mailbox;
use jete::pubsub::type_topic;
use jete::pubsub::Registry;
use jete::pubsub::typed_topic;
use jete::pubsub::Topic;

#[test]
fn can_receive_notification() {
    let mut t: Topic<u8> = Topic::new();
    let receiver = t.get_receiver();
    assert_eq!(t.send(5), Ok(()));
    assert_eq!(receiver.recv().unwrap(), 5);
}

#[test]
fn every_subscriber_gets_every_value_in_order() {
    let mut t: Topic<String> = Topic::new();
    let first = t.get_receiver();
    let second = t.get_receiver();
    assert_eq!(t.subscriber_count(), 2);
    assert_eq!(t.send("a".to_string()), Ok(()));
    assert_eq!(t.send("b".to_string()), Ok(()));
    assert_eq!(first.try_iter().collect::<Vec<_>>(), vec!["a", "b"]);
    assert_eq!(second.try_iter().collect::<Vec<_>>(), vec!["a", "b"]);
}

#[test]
fn late_subscriber_does_not_see_earlier_values() {
    let mut t: Topic<u32> = Topic::new();
    let early = t.get_receiver();
    assert_eq!(t.send(1), Ok(()));
    let late = t.get_receiver();
    assert!(late.try_recv().is_err());
    assert_eq!(t.send(2), Ok(()));
    assert_eq!(early.try_iter().collect::<Vec<_>>(), vec![1, 2]);
    assert_eq!(late.try_iter().collect::<Vec<_>>(), vec![2]);
}

#[test]
fn publishing_without_subscribers_reports_it() {
    let mut t: Topic<u8> = Topic::new();
    assert_eq!(t.send(12), Err(()));
    assert_eq!(t.subscriber_count(), 0);
}

#[test]
fn dropped_subscribers_are_pruned() {
    let mut t: Topic<u8> = Topic::new();
    let first = t.get_receiver();
    let second = t.get_receiver();
    let third = t.get_receiver();
    drop(second);
    assert_eq!(t.send(1), Ok(()));
    assert_eq!(t.subscriber_count(), 2);
    assert_eq!(first.recv().unwrap(), 1);
    assert_eq!(third.recv().unwrap(), 1);
    drop(first);
    drop(third);
    assert_eq!(t.send(13), Err(()));
    assert_eq!(t.subscriber_count(), 0);
}

#[test]
fn topics_are_addressed_by_name() {
    assert_eq!(typed_topic::<u8>("numbers").name(), "numbers");
    assert_eq!(typed_topic::<u8>("numbers").clone().name(), "numbers");
    assert_eq!(type_topic::<String>().name(), "");
}

#[test]
fn mailbox_keeps_only_the_latest() {
    let mut m: Mailbox<u32> = Mailbox::new();
    assert!(m.is_empty());
    assert_eq!(m.take(), None);
    assert!(!m.put(1));
    assert!(m.put(2));
    assert!(m.put(3));
    assert!(!m.is_empty());
    assert_eq!(m.take(), Some(3));
    assert_eq!(m.take(), None);
    assert!(!m.put(4));
    assert_eq!(m.take(), Some(4));
}

#[test]
fn registry_makes_a_topic_once_and_uses_it_again() {
    let numbers = typed_topic::<u8>("numbers");
    let mut r: Registry<u8> = Registry::new();
    assert_eq!(r.subscriber_count(&numbers), 0);
    let first = r.get_receiver(&numbers);
    let second = r.get_receiver(&typed_topic::<u8>("numbers"));
    assert_eq!(r.subscriber_count(&numbers), 2);
    assert_eq!(r.send(&numbers, 7), Ok(()));
    assert_eq!(first.try_iter().collect::<Vec<_>>(), vec![7]);
    assert_eq!(second.try_iter().collect::<Vec<_>>(), vec![7]);
}

#[test]
fn registry_keeps_topics_apart_by_name() {
    let odd = typed_topic::<u8>("odd");
    let even = typed_topic::<u8>("even");
    let mut r: Registry<u8> = Registry::new();
    let odds = r.get_receiver(&odd);
    let evens = r.get_receiver(&even);
    assert_eq!(r.send(&odd, 1), Ok(()));
    assert_eq!(r.send(&even, 2), Ok(()));
    assert_eq!(r.send(&odd, 3), Ok(()));
    assert_eq!(odds.try_iter().collect::<Vec<_>>(), vec![1, 3]);
    assert_eq!(evens.try_iter().collect::<Vec<_>>(), vec![2]);
    assert_eq!(r.send(&typed_topic::<u8>("eve"), 4), Err(()));
    assert_eq!(r.send(&type_topic::<u8>(), 5), Err(()));
    assert!(odds.try_recv().is_err());
    assert!(evens.try_recv().is_err());
}

#[test]
fn registry_reports_when_no_subscriber_remains() {
    let topic = typed_topic::<u8>("numbers");
    let other = typed_topic::<u8>("others");
    let mut r: Registry<u8> = Registry::new();
    assert_eq!(r.send(&topic, 12), Err(()));
    let receiver = r.get_receiver(&topic);
    let bystander = r.get_receiver(&other);
    assert_eq!(r.send(&topic, 12), Ok(()));
    drop(receiver);
    assert_eq!(r.send(&topic, 13), Err(()));
    assert_eq!(r.subscriber_count(&topic), 0);
    assert_eq!(r.subscriber_count(&other), 1);
    assert!(bystander.try_recv().is_err());
}

#[test]
fn late_subscriber_of_a_registry_does_not_see_earlier_values() {
    let topic = typed_topic::<u8>("numbers");
    let mut r: Registry<u8> = Registry::new();
    let early = r.get_receiver(&topic);
    assert_eq!(r.send(&topic, 1), Ok(()));
    let late = r.get_receiver(&topic);
    assert_eq!(r.send(&topic, 2), Ok(()));
    assert_eq!(early.try_iter().collect::<Vec<_>>(), vec![1, 2]);
    assert_eq!(late.try_iter().collect::<Vec<_>>(), vec![2]);
}
