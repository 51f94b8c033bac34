//! References by the rules of ABNT, the Brazilian standard: a bibliographic
//! record, a type with its tags, becomes one line of a list of references.
//!
//! Every text that a function writes is stated as a function of what it was
//! given: the typeset form of a field in [`tex`], a name surname first in
//! [`authors`], places with their publishers in [`location_publisher`], the
//! reference of each type of entry in a module of its own, and the reference
//! of any record, with its place in the list, in [`abnt`] and
//! [`bibliography`].
pub mod abnt;
pub mod article;
pub mod authors;
pub mod bibliography;
pub mod book;
pub mod chars;
pub mod collection;
pub mod compose;
pub mod date;
pub mod errors;
pub mod extra;
pub mod inbook;
pub mod incollection;
pub mod inproceedings;
pub mod issue;
pub mod join;
pub mod location_publisher;
pub mod numbers;
pub mod order;
pub mod pages;
pub mod punctuation;
pub mod record;
pub mod separator;
pub mod strong;
pub mod tags;
pub mod tex;
pub mod thesis;
pub mod uppercase;
pub mod volume;
pub mod words;
