use redo::{Command, Group, Record, SignalLog, Stack};

/// Appends one character; undoing removes it.
#[derive(Debug)]
struct Add(char);

impl Command<String> for Add {
    type Error = &'static str;

    fn apply(&mut self, s: &mut String) -> Result<(), Self::Error> {
        s.push(self.0);
        Ok(())
    }

    fn undo(&mut self, s: &mut String) -> Result<(), Self::Error> {
        self.0 = s.pop().ok_or("`s` is empty")?;
        Ok(())
    }
}

#[test]
fn group_bookkeeping() {
    let mut group: Group<u32, Record<String, Add, SignalLog>> = Group::new();
    assert!(group.is_empty());
    assert_eq!(group.len(), 0);
    group.insert(1, Record::new(String::new()));
    group.insert(2, Record::new(String::from("seed")));
    assert_eq!(group.len(), 2);
    assert!(!group.is_empty());
    let removed = group.remove(&2).unwrap();
    assert_eq!(removed.into_receiver(), "seed");
    assert_eq!(group.len(), 1);
}

#[test]
fn setting_an_absent_key_is_refused() {
    let mut group: Group<u32, Record<String, Add, SignalLog>> = Group::new();
    group.insert(7, Record::new(String::new()));
    assert!(!group.set(Some(9)));
    assert!(group.get().is_none());
    assert!(group.set(Some(7)));
    assert!(group.get().is_some());
    assert!(group.set(None));
    assert!(group.get().is_none());
}

#[test]
fn group_delegates_to_the_active_record() {
    let mut group: Group<u32, Record<String, Add, SignalLog>> = Group::new();
    group.insert(1, Record::new(String::new()));
    group.insert(2, Record::new(String::new()));
    assert!(group.push(Add('x')).is_none());
    group.set(Some(1));
    assert!(matches!(group.push(Add('a')), Some(Ok(_))));
    assert!(matches!(group.push(Add('b')), Some(Ok(_))));
    group.set(Some(2));
    assert!(matches!(group.push(Add('z')), Some(Ok(_))));
    group.set(Some(1));
    group.undo().unwrap().unwrap();
    assert_eq!(group.get().unwrap().as_receiver(), "a");
    group.redo().unwrap().unwrap();
    assert_eq!(group.get().unwrap().as_receiver(), "ab");
    group.set(Some(2));
    assert_eq!(group.get().unwrap().as_receiver(), "z");
}

#[test]
fn group_undo_without_active_record_is_none() {
    let mut group: Group<u32, Record<String, Add, SignalLog>> = Group::new();
    group.insert(1, Record::new(String::new()));
    assert!(group.undo().is_none());
    assert!(group.redo().is_none());
}

#[test]
fn stack_push_applies_and_pop_undoes() {
    let mut stack: Stack<String, Add> = Stack::new(String::new());
    assert!(stack.is_empty());
    stack.push(Add('a')).ok().unwrap();
    stack.push(Add('b')).ok().unwrap();
    assert_eq!(stack.len(), 2);
    assert_eq!(stack.as_receiver(), "ab");
    let popped = match stack.pop() {
        Some(Ok(cmd)) => cmd,
        _ => panic!("undo of an append cannot fail here"),
    };
    assert_eq!(popped.0, 'b');
    assert_eq!(stack.as_receiver(), "a");
    assert_eq!(stack.len(), 1);
}

#[test]
fn stack_pop_on_empty_is_none() {
    let mut stack: Stack<String, Add> = Stack::new(String::new());
    assert!(stack.pop().is_none());
    assert_eq!(stack.into_receiver(), "");
}

#[test]
fn group_delegates_to_the_active_stack() {
    let mut group: Group<u32, Stack<String, Add>> = Group::new();
    group.insert(5, Stack::new(String::new()));
    assert!(group.pop().is_none());
    group.set(Some(5));
    assert!(matches!(group.push(Add('q')), Some(Ok(()))));
    assert_eq!(group.get().unwrap().as_receiver(), "q");
    let popped = match group.pop() {
        Some(Ok(cmd)) => cmd,
        _ => panic!("undo of an append cannot fail here"),
    };
    assert_eq!(popped.0, 'q');
    assert_eq!(group.get().unwrap().as_receiver(), "");
}

#[test]
fn insert_returns_the_previous_engine() {
    let mut group: Group<u32, Stack<String, Add>> = Group::new();
    assert!(group.insert(3, Stack::new(String::from("old"))).is_none());
    let previous = group.insert(3, Stack::new(String::from("new"))).unwrap();
    assert_eq!(previous.into_receiver(), "old");
    assert_eq!(group.len(), 1);
}

#[test]
fn group_clones_and_compares_by_contents() {
    let mut group: Group<u32, String> = Group::new();
    group.insert(1, String::from("one"));
    group.set(Some(1));
    let copy = group.clone();
    assert_eq!(copy, group);
    let other: Group<u32, String> = Group::default();
    assert_ne!(other, group);
}
