use redo::{Command, Error, Merge, Record, Signal, SignalLog, Text};

/// Appends one character; undoing removes it.
#[derive(Debug)]
struct Add(char);

impl Command<String> for Add {
    type Error = &'static str;

    fn apply(&mut self, s: &mut String) -> Result<(), Self::Error> {
        s.push(self.0);
        Ok(())
    }

    fn undo(&mut self, s: &mut String) -> Result<(), Self::Error> {
        self.0 = s.pop().ok_or("`s` is empty")?;
        Ok(())
    }
}

impl Text for Add {
    fn text(&self) -> String {
        format!("Add {}", self.0)
    }
}

type Rec = Record<String, Add, SignalLog>;

#[test]
fn apply_three_commands() {
    let mut record: Rec = Record::new(String::new());
    record.apply(Add('a')).ok().unwrap();
    record.apply(Add('b')).ok().unwrap();
    record.apply(Add('c')).ok().unwrap();
    assert_eq!(record.as_receiver(), "abc");
    assert_eq!(record.len(), 3);
    assert!(record.can_undo());
    assert!(!record.can_redo());
}

#[test]
fn undo_all_then_redo_all() {
    let mut record: Rec = Record::new(String::new());
    record.apply(Add('a')).ok().unwrap();
    record.apply(Add('b')).ok().unwrap();
    record.apply(Add('c')).ok().unwrap();
    record.undo().unwrap().unwrap();
    record.undo().unwrap().unwrap();
    record.undo().unwrap().unwrap();
    assert_eq!(record.as_receiver(), "");
    assert!(!record.can_undo());
    assert!(record.can_redo());
    record.redo().unwrap().unwrap();
    record.redo().unwrap().unwrap();
    record.redo().unwrap().unwrap();
    assert_eq!(record.as_receiver(), "abc");
    assert!(!record.can_redo());
}

#[test]
fn undo_past_the_bottom_returns_none() {
    let mut record: Rec = Record::new(String::new());
    assert!(record.undo().is_none());
    assert!(record.redo().is_none());
}

#[test]
fn apply_returns_the_discarded_tail() {
    let mut record: Rec = Record::new(String::new());
    record.apply(Add('a')).ok().unwrap();
    record.apply(Add('b')).ok().unwrap();
    record.apply(Add('c')).ok().unwrap();
    record.undo().unwrap().unwrap();
    record.undo().unwrap().unwrap();
    let tail = record.apply(Add('d')).ok().unwrap();
    let chars: Vec<char> = tail.iter().map(|cmd| cmd.0).collect();
    assert_eq!(chars, vec!['b', 'c']);
    assert_eq!(record.as_receiver(), "ad");
    assert_eq!(record.len(), 2);
}

#[test]
fn into_receiver_yields_the_buffer() {
    let mut record: Rec = Record::new(String::from("x"));
    record.apply(Add('y')).ok().unwrap();
    assert_eq!(record.into_receiver(), "xy");
}

#[test]
fn commands_iterate_in_application_order() {
    let mut record: Rec = Record::new(String::new());
    record.apply(Add('a')).ok().unwrap();
    record.apply(Add('b')).ok().unwrap();
    let chars: Vec<char> = record.commands().iter().map(|cmd| cmd.0).collect();
    assert_eq!(chars, vec!['a', 'b']);
}

/// Appends a string; merging concatenates, so one undo removes everything.
#[derive(Debug)]
struct MergingAdd(String);

impl Command<String> for MergingAdd {
    type Error = ();

    fn apply(&mut self, s: &mut String) -> Result<(), ()> {
        s.push_str(&self.0);
        Ok(())
    }

    fn undo(&mut self, s: &mut String) -> Result<(), ()> {
        let len = s.len() - self.0.len();
        s.truncate(len);
        Ok(())
    }

    fn merge(&mut self, other: Self) -> Merge<Self> {
        self.0.push_str(&other.0);
        Merge::Yes
    }
}

#[test]
fn merged_commands_undo_and_redo_as_one() {
    let mut record: Record<String, MergingAdd, SignalLog> = Record::new(String::new());
    record.apply(MergingAdd("a".into())).ok().unwrap();
    record.apply(MergingAdd("b".into())).ok().unwrap();
    record.apply(MergingAdd("c".into())).ok().unwrap();
    assert_eq!(record.as_receiver(), "abc");
    assert_eq!(record.len(), 1);
    record.undo().unwrap().unwrap();
    assert_eq!(record.as_receiver(), "");
    record.redo().unwrap().unwrap();
    assert_eq!(record.as_receiver(), "abc");
}

#[test]
fn merge_is_suppressed_in_the_saved_state() {
    let mut record: Record<String, MergingAdd, SignalLog> = Record::new(String::new());
    record.apply(MergingAdd("a".into())).ok().unwrap();
    record.set_saved();
    record.apply(MergingAdd("b".into())).ok().unwrap();
    assert_eq!(record.len(), 2);
    record.undo().unwrap().unwrap();
    assert_eq!(record.as_receiver(), "a");
    assert!(record.is_saved());
}

#[test]
fn limited_record_drops_the_oldest_command() {
    let mut record: Record<String, Add, SignalLog> =
        Record::builder().capacity(2).limit(2).build(String::new());
    record.apply(Add('a')).ok().unwrap();
    record.apply(Add('b')).ok().unwrap();
    record.apply(Add('c')).ok().unwrap();
    assert_eq!(record.len(), 2);
    assert_eq!(record.as_receiver(), "abc");
    record.undo().unwrap().unwrap();
    record.undo().unwrap().unwrap();
    assert_eq!(record.as_receiver(), "a");
    assert!(record.undo().is_none());
}

/// Adds or deletes one character; a deletion annuls the matching addition.
#[derive(Debug)]
enum Edit {
    Add(char),
    Del(char),
}

impl Command<String> for Edit {
    type Error = &'static str;

    fn apply(&mut self, s: &mut String) -> Result<(), Self::Error> {
        match self {
            Edit::Add(c) => {
                s.push(*c);
                Ok(())
            }
            Edit::Del(c) => {
                let got = s.pop().ok_or("`s` is empty")?;
                *c = got;
                Ok(())
            }
        }
    }

    fn undo(&mut self, s: &mut String) -> Result<(), Self::Error> {
        match self {
            Edit::Add(c) => {
                *c = s.pop().ok_or("`s` is empty")?;
                Ok(())
            }
            Edit::Del(c) => {
                s.push(*c);
                Ok(())
            }
        }
    }

    fn merge(&mut self, other: Self) -> Merge<Self> {
        match (&*self, &other) {
            (Edit::Add(a), Edit::Del(d)) if a == d => Merge::Annul,
            _ => Merge::No(other),
        }
    }
}

#[test]
fn annulment_restores_length_and_receiver() {
    let mut record: Record<String, Edit, SignalLog> = Record::new(String::new());
    record.apply(Edit::Add('a')).ok().unwrap();
    assert_eq!(record.len(), 1);
    record.apply(Edit::Add('b')).ok().unwrap();
    assert_eq!(record.len(), 2);
    record.apply(Edit::Del('b')).ok().unwrap();
    assert_eq!(record.len(), 1);
    assert_eq!(record.as_receiver(), "a");
}

#[test]
fn failed_apply_returns_the_command_and_changes_nothing() {
    let mut record: Record<String, Edit, SignalLog> = Record::new(String::new());
    let err = match record.apply(Edit::Del('x')) {
        Err(e) => e,
        Ok(_) => panic!("the deletion must fail on an empty buffer"),
    };
    let Error(cmd, msg) = err;
    assert!(matches!(cmd, Edit::Del(_)));
    assert_eq!(msg, "`s` is empty");
    assert_eq!(record.len(), 0);
    assert_eq!(record.as_receiver(), "");
    assert!(record.is_saved());
}

#[test]
fn clear_resets_the_record_but_not_the_receiver() {
    let mut record: Rec = Record::new(String::new());
    record.apply(Add('a')).ok().unwrap();
    record.apply(Add('b')).ok().unwrap();
    record.clear();
    assert_eq!(record.len(), 0);
    assert!(!record.can_undo());
    assert!(!record.can_redo());
    assert!(record.is_saved());
    assert_eq!(record.as_receiver(), "ab");
}

#[test]
fn saved_marker_follows_the_cursor() {
    let mut record: Rec = Record::new(String::new());
    record.apply(Add('a')).ok().unwrap();
    record.apply(Add('b')).ok().unwrap();
    record.set_saved();
    assert!(record.is_saved());
    record.apply(Add('c')).ok().unwrap();
    assert!(!record.is_saved());
    record.undo().unwrap().unwrap();
    assert!(record.is_saved());
}

#[test]
fn saved_marker_in_discarded_tail_is_lost() {
    let mut record: Rec = Record::new(String::new());
    record.apply(Add('a')).ok().unwrap();
    record.apply(Add('b')).ok().unwrap();
    record.set_saved();
    record.undo().unwrap().unwrap();
    record.apply(Add('x')).ok().unwrap();
    assert!(!record.is_saved());
    record.undo().unwrap().unwrap();
    assert!(!record.is_saved());
}

#[test]
fn limit_query_reports_none_when_unbounded() {
    let record: Rec = Record::new(String::new());
    assert_eq!(record.limit(), None);
    let bounded: Rec = Record::builder().limit(5).build(String::new());
    assert_eq!(bounded.limit(), Some(5));
    assert!(bounded.capacity() >= bounded.len());
}

#[test]
fn is_empty_tracks_the_length() {
    let mut record: Rec = Record::new(String::new());
    assert!(record.is_empty());
    record.apply(Add('a')).ok().unwrap();
    assert!(!record.is_empty());
}

#[test]
fn undo_and_redo_strings_name_the_neighbours() {
    let mut record: Rec = Record::new(String::new());
    assert_eq!(record.to_undo_string(), None);
    assert_eq!(record.to_redo_string(), None);
    record.apply(Add('a')).ok().unwrap();
    assert_eq!(record.to_undo_string(), Some(String::from("Add a")));
    record.undo().unwrap().unwrap();
    assert_eq!(record.to_redo_string(), Some(String::from("Add a")));
}

#[test]
fn signals_on_first_apply() {
    let mut record: Rec = Record::builder().signals(SignalLog::new()).build(String::new());
    record.apply(Add('a')).ok().unwrap();
    let log = record.slot().unwrap();
    assert_eq!(
        log.entries,
        vec![
            Signal::Cursor { prev: 0, next: 1 },
            Signal::Undo(true),
            Signal::Saved(false),
        ]
    );
}

#[test]
fn signals_are_edge_triggered_across_undo_and_redo() {
    let mut record: Rec = Record::builder().signals(SignalLog::new()).build(String::new());
    record.apply(Add('a')).ok().unwrap();
    let first = record.slot().unwrap().entries.len();
    record.undo().unwrap().unwrap();
    let after_undo = record.slot().unwrap().entries[first..].to_vec();
    assert_eq!(
        after_undo,
        vec![
            Signal::Cursor { prev: 1, next: 0 },
            Signal::Redo(true),
            Signal::Undo(false),
            Signal::Saved(true),
        ]
    );
    let second = record.slot().unwrap().entries.len();
    record.redo().unwrap().unwrap();
    let after_redo = record.slot().unwrap().entries[second..].to_vec();
    assert_eq!(
        after_redo,
        vec![
            Signal::Cursor { prev: 0, next: 1 },
            Signal::Redo(false),
            Signal::Undo(true),
            Signal::Saved(false),
        ]
    );
}

#[test]
fn saved_signals_around_a_saved_cursor() {
    let mut record: Rec = Record::builder().signals(SignalLog::new()).build(String::new());
    record.apply(Add('a')).ok().unwrap();
    record.apply(Add('b')).ok().unwrap();
    record.set_saved();
    let mark = record.slot().unwrap().entries.len();
    assert_eq!(record.slot().unwrap().entries[mark - 1], Signal::Saved(true));
    record.apply(Add('c')).ok().unwrap();
    let after_apply = record.slot().unwrap().entries[mark..].to_vec();
    assert!(after_apply.contains(&Signal::Saved(false)));
    let mark2 = record.slot().unwrap().entries.len();
    record.undo().unwrap().unwrap();
    let after_undo = record.slot().unwrap().entries[mark2..].to_vec();
    assert!(after_undo.contains(&Signal::Saved(true)));
}

#[test]
fn cursor_signal_is_emitted_even_when_merging_keeps_it() {
    let mut record: Record<String, MergingAdd, SignalLog> =
        Record::builder().signals(SignalLog::new()).build(String::new());
    record.apply(MergingAdd("a".into())).ok().unwrap();
    let mark = record.slot().unwrap().entries.len();
    record.apply(MergingAdd("b".into())).ok().unwrap();
    let after = record.slot().unwrap().entries[mark..].to_vec();
    assert_eq!(after, vec![Signal::Cursor { prev: 1, next: 1 }]);
}

/// A command whose undo always fails.
#[derive(Debug)]
struct BrokenUndo;

impl Command<String> for BrokenUndo {
    type Error = &'static str;

    fn apply(&mut self, s: &mut String) -> Result<(), Self::Error> {
        s.push('!');
        Ok(())
    }

    fn undo(&mut self, _s: &mut String) -> Result<(), Self::Error> {
        Err("stuck")
    }
}

#[test]
fn failed_undo_keeps_the_bookkeeping() {
    let mut record: Record<String, BrokenUndo, SignalLog> = Record::new(String::new());
    record.apply(BrokenUndo).ok().unwrap();
    let res = record.undo().unwrap();
    assert_eq!(res, Err("stuck"));
    assert_eq!(record.len(), 1);
    assert!(record.can_undo());
    assert!(!record.can_redo());
}

#[test]
fn builder_default_uses_the_default_receiver() {
    let record: Rec = Record::builder().default();
    assert_eq!(record.as_receiver(), "");
    assert_eq!(record.len(), 0);
    assert!(record.is_saved());
}

#[test]
fn slot_is_absent_without_an_observer() {
    let record: Rec = Record::new(String::new());
    assert!(record.slot().is_none());
}

#[test]
fn default_record_wraps_the_default_receiver() {
    let mut record: Rec = Record::default();
    assert_eq!(record.as_receiver(), "");
    record.apply(Add('a')).ok().unwrap();
    assert_eq!(record.as_receiver(), "a");
}

#[test]
fn record_from_receiver_matches_new() {
    let record: Rec = Record::from(String::from("z"));
    assert_eq!(record.as_receiver(), "z");
    assert!(record.is_empty());
    assert!(record.is_saved());
}
