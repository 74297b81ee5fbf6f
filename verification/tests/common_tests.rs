use chatserver::chat::{Client, Device, Room, User};
use std::cell::Cell;
use std::collections::HashMap;
use std::rc::Rc;
use chatserver::common::{
    client_equal, client_in_room, client_in_room_w, human_milli_seconds, human_time,
    now_milli_seconds, LAST_RFC2822_MILLI,
};

fn client(name: &str, password: &str) -> Client {
    Client {
        user: Some(User {
            name: name.to_string(),
            password: password.to_string(),
            gender: Some(1),
        }),
        device: Some(Device {}),
    }
}

fn room_with(members: Vec<Client>) -> Room {
    Room {
        name: "lobby".to_string(),
        created_time: 7,
        history_visible: true,
        password: None,
        manner: None,
        messages: vec![],
        clients: members,
    }
}

#[test]
fn time_test() {
    let now = now_milli_seconds();
    println!("{now}");
}

#[test]
fn str_equal() {
    let a: String = String::from("abc");
    let b: String = String::from("abc");
    assert_eq!(a, b);
    assert_eq!(&a, &b);
}

#[test]
fn rc_test() {
    let a = Rc::new(String::from("hello, world"));
    let b = Rc::clone(&a);

    assert_eq!(2, Rc::strong_count(&a));
    assert_eq!(Rc::strong_count(&a), Rc::strong_count(&b));
    assert_eq!(a, b);

    let a = Rc::new(String::from("test ref counting"));
    println!("count after creating a = {}", Rc::strong_count(&a));
    let b = Rc::clone(&a);
    println!("count after creating b = {}", Rc::strong_count(&a));
    {
        let c = Rc::clone(&a);
        println!("count after creating c = {}", Rc::strong_count(&c));
    }
    println!("count after c goes out of scope = {}", Rc::strong_count(&a));
}

#[test]
fn cell_test() {
    let c = Cell::new("asdf");
    let one = c.get();
    c.set("qwer");
    let two = c.get();
    println!("{},{}", one, two);
}

#[test]
fn map_test() {
    let mut m = HashMap::<i32, i32>::new();
    m.insert(3, 4);
    assert_eq!(*m.get(&3).unwrap(), 4);
    m.insert(3, 3);
    assert_eq!(*m.get(&3).unwrap(), 3);
    m.remove(&3);
    assert_eq!(m.get(&3), None);
}

#[test]
fn clock_is_past_the_year_2020() {
    assert!(now_milli_seconds() > 1_577_836_800_000);
}

#[test]
fn epoch_as_calendar_text() {
    assert_eq!(human_milli_seconds(0), "Thu, 1 Jan 1970 00:00:00 +0000");
}

#[test]
fn a_later_instant_as_calendar_text() {
    assert_eq!(human_milli_seconds(1_700_000_000_123), "Tue, 14 Nov 2023 22:13:20 +0000");
}

#[test]
fn last_instant_with_calendar_text() {
    assert_eq!(
        human_milli_seconds(LAST_RFC2822_MILLI),
        "Fri, 31 Dec 9999 23:59:59 +0000"
    );
    assert_eq!(
        human_time(LAST_RFC2822_MILLI),
        Some("Fri, 31 Dec 9999 23:59:59 +0000".to_string())
    );
}

#[test]
fn no_calendar_text_past_the_year_9999() {
    assert_eq!(human_time(LAST_RFC2822_MILLI + 1), None);
    assert_eq!(human_time(u64::MAX), None);
}

#[test]
fn human_time_is_the_calendar_text() {
    assert_eq!(human_time(86_400_000), Some("Fri, 2 Jan 1970 00:00:00 +0000".to_string()));
}

#[test]
fn clients_are_equal_by_username_only() {
    assert!(client_equal(&client("alice", "x"), &client("alice", "another")));
    assert!(!client_equal(&client("alice", "x"), &client("bob", "x")));
    let mut no_device = client("alice", "x");
    no_device.device = None;
    assert!(client_equal(&no_device, &client("alice", "x")));
}

#[test]
fn username_of_a_client() {
    assert_eq!(client("alice", "x").username(), "alice");
}

#[test]
fn membership_goes_by_username() {
    let room = room_with(vec![client("alice", "x"), client("bob", "y")]);
    assert!(client_in_room(&client("bob", "other"), &room));
    assert!(client_in_room(&client("alice", "x"), &room));
    assert!(!client_in_room(&client("carol", "x"), &room));
    assert!(client_in_room_w(&client("bob", "other"), &room));
    assert!(!client_in_room_w(&client("carol", "x"), &room));
}

#[test]
fn nobody_is_in_an_empty_room() {
    let room = room_with(vec![]);
    assert!(!client_in_room(&client("alice", "x"), &room));
    assert!(!client_in_room_w(&client("alice", "x"), &room));
}

#[test]
fn the_clock_does_not_run_backwards_by_much() {
    let first = now_milli_seconds();
    let second = now_milli_seconds();
    assert!(second + 60_000 > first);
    assert!(first < LAST_RFC2822_MILLI);
}

#[test]
fn message_type_numbers() {
    assert_eq!(chatserver::chat::MessageType::Text.number(), 0);
    assert_eq!(
        chatserver::chat::MessageType::from_number(0),
        Some(chatserver::chat::MessageType::Text)
    );
    assert_eq!(chatserver::chat::MessageType::from_number(1), None);
    assert_eq!(chatserver::chat::MessageType::from_number(-1), None);
}
