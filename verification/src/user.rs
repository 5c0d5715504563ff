//! The user record: a username and the profile fields sent along with it.

use vstd::prelude::*;
use crate::decimal::{decimal, lemma_decimal_injective, parse};

verus! {

/// The value of one profile field.
#[derive(Debug, PartialEq, Eq)]
pub enum FieldValue {
    Text(String),
    Integer(i64),
    Boolean(bool),
}

/// A `FieldValue` as specifications see it.
pub enum FieldValueView {
    Text(Seq<char>),
    Integer(i64),
    Boolean(bool),
}

impl View for FieldValue {
    type V = FieldValueView;

    open spec fn view(&self) -> FieldValueView {
        match self {
            FieldValue::Text(s) => FieldValueView::Text(s@),
            FieldValue::Integer(n) => FieldValueView::Integer(*n),
            FieldValue::Boolean(b) => FieldValueView::Boolean(*b),
        }
    }
}

impl FieldValueView {
    /// The value of a field that was submitted as text: a number where the
    /// text is the decimal notation of one that fits 64 bits, and the text
    /// itself otherwise.
    pub open spec fn from_text(text: Seq<char>) -> FieldValueView {
        if exists|n: i64| #[trigger] decimal(n as int) == text {
            FieldValueView::Integer(choose|n: i64| #[trigger] decimal(n as int) == text)
        } else {
            FieldValueView::Text(text)
        }
    }
}

/// The notation of a number is read as that number.
pub proof fn lemma_notation_is_read_as_number(n: i64)
    ensures
        FieldValueView::from_text(decimal(n as int)) == FieldValueView::Integer(n),
{
    let text = decimal(n as int);
    let chosen = choose|k: i64| #[trigger] decimal(k as int) == text;
    lemma_decimal_injective(chosen as int, n as int);
}

impl FieldValue {
    /// The value of a field that was submitted as text. A text is kept as a
    /// number only where writing the number gives the text back, so nothing
    /// of what was submitted is lost.
    pub fn from_text(text: String) -> (value: FieldValue)
        ensures
            value@ == FieldValueView::from_text(text@),
    {
        match parse(text.as_str()) {
            Some(n) => {
                proof {
                    lemma_notation_is_read_as_number(n);
                }
                FieldValue::Integer(n)
            },
            None => FieldValue::Text(text),
        }
    }
}

impl Clone for FieldValue {
    fn clone(&self) -> (copy: Self)
        ensures
            copy@ == self@,
    {
        match self {
            FieldValue::Text(s) => FieldValue::Text(s.clone()),
            FieldValue::Integer(n) => FieldValue::Integer(*n),
            FieldValue::Boolean(b) => FieldValue::Boolean(*b),
        }
    }
}

/// One profile field: a name and the value submitted under it.
#[derive(Debug, PartialEq, Eq)]
pub struct Field {
    pub name: String,
    pub value: FieldValue,
}

/// A `Field` as specifications see it.
pub struct FieldView {
    pub name: Seq<char>,
    pub value: FieldValueView,
}

impl View for Field {
    type V = FieldView;

    open spec fn view(&self) -> FieldView {
        FieldView { name: self.name@, value: self.value@ }
    }
}

impl Clone for Field {
    fn clone(&self) -> (copy: Self)
        ensures
            copy@ == self@,
    {
        Field { name: self.name.clone(), value: self.value.clone() }
    }
}

/// A user record. The username identifies it; the profile is carried as it
/// was submitted and is never inspected.
#[derive(Debug, PartialEq, Eq)]
pub struct User {
    pub username: String,
    pub profile: Vec<Field>,
}

/// A `User` as specifications see it.
pub struct UserView {
    pub username: Seq<char>,
    pub profile: Seq<FieldView>,
}

impl View for User {
    type V = UserView;

    open spec fn view(&self) -> UserView {
        UserView {
            username: self.username@,
            profile: Seq::new(self.profile@.len(), |i: int| self.profile@[i]@),
        }
    }
}

impl Clone for User {
    fn clone(&self) -> (copy: Self)
        ensures
            copy@ == self@,
    {
        let mut profile: Vec<Field> = Vec::new();
        let mut i: usize = 0;
        while i < self.profile.len()
            invariant
                i <= self.profile@.len(),
                profile@.len() == i,
                forall|k: int| 0 <= k < i ==> profile@[k]@ == self.profile@[k]@,
            decreases self.profile@.len() - i,
        {
            profile.push(self.profile[i].clone());
            i += 1;
        }
        let copy = User { username: self.username.clone(), profile };
        assert(copy@.profile =~= self@.profile);
        copy
    }
}

} // verus!
