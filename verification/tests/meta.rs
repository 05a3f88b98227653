use redo::{Command, Merge, Meta, Record, SignalLog, Text};

/// Appends a string; merging concatenates unless the other is `"!"`,
/// which annuls.
#[derive(Debug)]
struct Add(String);

impl Command<String> for Add {
    type Error = ();

    fn apply(&mut self, s: &mut String) -> Result<(), ()> {
        s.push_str(&self.0);
        Ok(())
    }

    fn undo(&mut self, s: &mut String) -> Result<(), ()> {
        let len = s.len() - self.0.len();
        s.truncate(len);
        Ok(())
    }

    fn merge(&mut self, other: Self) -> Merge<Self> {
        if other.0 == "!" {
            Merge::Annul
        } else {
            self.0.push_str(&other.0);
            Merge::Yes
        }
    }
}

impl Text for Add {
    fn text(&self) -> String {
        self.0.clone()
    }
}

#[test]
fn meta_forwards_the_command_contract() {
    let mut buffer = String::new();
    let mut meta = Meta::from(Add(String::from("hi")));
    meta.apply(&mut buffer).unwrap();
    assert_eq!(buffer, "hi");
    meta.undo(&mut buffer).unwrap();
    assert_eq!(buffer, "");
    meta.redo(&mut buffer).unwrap();
    assert_eq!(buffer, "hi");
    assert_eq!(meta.command.0, "hi");
    assert_eq!(meta.text(), "hi");
}

#[test]
fn meta_merge_forwards_and_repackages() {
    let mut first = Meta::from(Add(String::from("a")));
    let second = Meta::from(Add(String::from("b")));
    match first.merge(second) {
        Merge::Yes => {}
        _ => panic!("the inner merge concatenates and accepts"),
    }
    assert_eq!(first.command.0, "ab");
    let annuller = Meta::from(Add(String::from("!")));
    match first.merge(annuller) {
        Merge::Annul => {}
        _ => panic!("the inner merge annuls on \"!\""),
    }
}

#[test]
fn record_of_meta_commands_merges_through_the_wrapper() {
    let mut record: Record<String, Meta<Add>, SignalLog> = Record::new(String::new());
    record.apply(Meta::from(Add(String::from("a")))).ok().unwrap();
    record.apply(Meta::from(Add(String::from("b")))).ok().unwrap();
    assert_eq!(record.len(), 1);
    assert_eq!(record.as_receiver(), "ab");
    assert_eq!(record.to_undo_string(), Some(String::from("ab")));
    record.undo().unwrap().unwrap();
    assert_eq!(record.as_receiver(), "");
}
