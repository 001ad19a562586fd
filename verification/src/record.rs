//! The follower record and its mathematical value.

use vstd::prelude::*;

verus! {

/// The mathematical value of a [`Record`].
pub struct RecordView {
    /// The identity key.
    pub user_id: Seq<char>,
    /// The display name.
    pub user_name: Seq<char>,
}

/// One follower: an identity key and a display name.
///
/// The key alone decides whether two records denote the same follower: `==` on
/// records looks at `user_id` and never at `user_name`.
#[derive(Debug)]
pub struct Record {
    user_id: String,
    user_name: String,
}

impl View for Record {
    type V = RecordView;

    closed spec fn view(&self) -> RecordView {
        RecordView { user_id: self.user_id@, user_name: self.user_name@ }
    }
}

impl DeepView for Record {
    type V = RecordView;

    open spec fn deep_view(&self) -> RecordView {
        self@
    }
}

impl Record {
    /// Builds the record of one row.
    pub fn new(user_id: String, user_name: String) -> (r: Record)
        ensures
            r@.user_id == user_id@,
            r@.user_name == user_name@,
    {
        Record { user_id, user_name }
    }

    /// The identity key.
    pub fn user_id(&self) -> (id: &str)
        ensures
            id@ == self@.user_id,
    {
        self.user_id.as_str()
    }

    /// The display name.
    pub fn user_name(&self) -> (name: &str)
        ensures
            name@ == self@.user_name,
    {
        self.user_name.as_str()
    }

    /// Whether `self` and `other` carry the same identity key.
    pub fn same_id(&self, other: &Record) -> (b: bool)
        ensures
            b == (self@.user_id == other@.user_id),
    {
        self.user_id == other.user_id
    }
}

impl Clone for Record {
    fn clone(&self) -> (r: Record)
        ensures
            r@ == self@,
    {
        Record { user_id: self.user_id.clone(), user_name: self.user_name.clone() }
    }
}

impl PartialEq for Record {
    fn eq(&self, other: &Record) -> (b: bool) {
        self.user_id == other.user_id
    }
}

impl Eq for Record {
}

impl vstd::std_specs::cmp::PartialEqSpecImpl for Record {
    open spec fn obeys_eq_spec() -> bool {
        true
    }

    open spec fn eq_spec(&self, other: &Record) -> bool {
        self@.user_id == other@.user_id
    }
}

} // verus!
