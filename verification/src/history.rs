//! The record of completed tests.

use crate::measure::{Mean, Rate, Timestamp};
use vstd::prelude::*;

verus! {

/// One completed test.
#[derive(Debug)]
pub struct TestRecord {
    pub timestamp: Timestamp,
    pub profile: String,
    pub down: Rate,
    pub up: Rate,
    pub ping: Mean,
    pub jitter: Mean,
    pub grade: char,
}

/// The contents of a [`TestRecord`].
#[verifier::ext_equal]
pub struct RecordView {
    pub timestamp: Timestamp,
    pub profile: Seq<char>,
    pub down: Rate,
    pub up: Rate,
    pub ping: Mean,
    pub jitter: Mean,
    pub grade: char,
}

impl View for TestRecord {
    type V = RecordView;

    open spec fn view(&self) -> RecordView {
        RecordView {
            timestamp: self.timestamp,
            profile: self.profile@,
            down: self.down,
            up: self.up,
            ping: self.ping,
            jitter: self.jitter,
            grade: self.grade,
        }
    }
}

/// The contents of every record of a list.
#[verifier::opaque]
pub open spec fn record_views(list: Seq<TestRecord>) -> Seq<RecordView> {
    list.map_values(|r: TestRecord| r@)
}

/// Changes of a list are changes of what its records say.
pub proof fn record_views_follow(list: Seq<TestRecord>, i: int)
    ensures
        record_views(list).len() == list.len(),
        0 <= i < list.len() ==> record_views(list.remove(i)) == record_views(list).remove(i),
        record_views(Seq::empty()) == Seq::<RecordView>::empty(),
{
    reveal(record_views);
    assert(record_views(Seq::empty()) =~= Seq::<RecordView>::empty());
    if 0 <= i < list.len() {
        assert(record_views(list.remove(i)) =~= record_views(list).remove(i));
    }
}

/// Where the history is kept.
#[derive(Debug)]
pub enum HistoryPlace {
    /// In exactly this file.
    File(String),
    /// In `.speed-test-history.json` in this directory.
    Directory(String),
}

/// Where the history is kept: in the file that is set for it, else in the
/// user's directory, else in the working directory.
pub fn history_place(
    custom: Option<String>,
    user_profile: Option<String>,
    home: Option<String>,
) -> (p: HistoryPlace)
    ensures
        match p {
            HistoryPlace::File(f) => custom == Some(f),
            HistoryPlace::Directory(d) => custom is None && (match (user_profile, home) {
                (Some(u), _) => d == u,
                (None, Some(h)) => d == h,
                (None, None) => d@ == "."@,
            }),
        },
{
    match custom {
        Some(f) => HistoryPlace::File(f),
        None => match user_profile {
            Some(u) => HistoryPlace::Directory(u),
            None => match home {
                Some(h) => HistoryPlace::Directory(h),
                None => HistoryPlace::Directory(".".to_owned()),
            },
        },
    }
}

/// What the history file turned out to be.
#[derive(Debug)]
pub enum HistoryFile {
    /// There is none, or it cannot be read.
    Missing,
    /// It does not hold a list of records.
    Corrupt,
    Records(Vec<TestRecord>),
}

/// The history to start with, and whether the file is to be moved aside first:
/// a missing file is normal, a corrupt one is kept for inspection instead of
/// being overwritten.
pub fn starting_history(file: HistoryFile) -> (r: (Vec<TestRecord>, bool))
    ensures
        match file {
            HistoryFile::Missing => r.0@.len() == 0 && !r.1,
            HistoryFile::Corrupt => r.0@.len() == 0 && r.1,
            HistoryFile::Records(list) => r.0 == list && !r.1,
        },
{
    match file {
        HistoryFile::Missing => (Vec::new(), false),
        HistoryFile::Corrupt => (Vec::new(), true),
        HistoryFile::Records(list) => (list, false),
    }
}

} // verus!
