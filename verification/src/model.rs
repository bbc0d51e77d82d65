//! Shared data-model types of the scaffold: multilingual fields and the
//! plain value types that controllers and configuration carry.

use vstd::prelude::*;

verus! {

/// One language's content of a multilingual field.
#[derive(Debug, Clone)]
pub struct LangField {
    pub lang: String,
    pub content: String,
}

impl LangField {
    /// A field for one language.
    pub fn new(lang: String, content: String) -> (r: LangField)
        ensures
            r.lang@ == lang@,
            r.content@ == content@,
    {
        LangField { lang, content }
    }
}

/// Whether position `i` holds the first entry for a language.
pub open spec fn is_first_match(s: Seq<LangField>, language: Seq<char>, i: int) -> bool {
    &&& 0 <= i < s.len()
    &&& s[i].lang@ == language
    &&& forall|j: int| 0 <= j < i ==> #[trigger] s[j].lang@ != language
}

/// A field holding one content per language, in insertion order.
#[derive(Debug, Clone)]
pub struct MultilangField(pub Vec<LangField>);

impl MultilangField {
    /// A multilingual field over the given entries.
    pub fn new(fileds: Vec<LangField>) -> (r: MultilangField)
        ensures
            r.0@ == fileds@,
    {
        MultilangField(fileds)
    }

    /// The first entry for the given language, if the field has one.
    pub fn get_language(&self, language: &str) -> (r: Option<&LangField>)
        ensures
            match r {
                Some(f) => exists|i: int| is_first_match(self.0@, language@, i) && *f == self.0@[i],
                None => forall|i: int|
                    0 <= i < self.0@.len() ==> #[trigger] self.0@[i].lang@ != language@,
            },
    {
        let mut i: usize = 0;
        while i < self.0.len()
            invariant
                i <= self.0@.len(),
                forall|j: int| 0 <= j < i ==> #[trigger] self.0@[j].lang@ != language@,
            decreases self.0@.len() - i,
        {
            if crate::strutil::str_eq(self.0[i].lang.as_str(), language) {
                proof {
                    assert(is_first_match(self.0@, language@, i as int));
                }
                return Some(&self.0[i]);
            }
            i += 1;
        }
        None
    }
}

/// A minimal response body carrying one message.
#[derive(Debug, Clone)]
pub struct SimpleResponse {
    pub message: String,
}

/// The application configuration values: the server port and the database
/// connection string. Reading them from the environment is the host's
/// concern; the values themselves live here.
#[derive(Debug, Clone)]
pub struct AppConfig {
    pub port: u16,
    pub database_url: String,
}

} // verus!
