use vstd::prelude::*;

use crate::ids::{trim_text, trimmed};

verus! {

/// The settings read at start-up.
#[derive(Debug)]
pub struct Config {
    openai_api_key: String,
    pub conversation_history_save_path: String,
}

impl Config {
    /// The language-model API key.
    pub closed spec fn api_key(&self) -> Seq<char> {
        self.openai_api_key@
    }

    /// Where the snapshot of the store is kept.
    pub closed spec fn save_path(&self) -> Seq<char> {
        self.conversation_history_save_path@
    }

    /// A configuration with the given key and snapshot path.
    pub fn new(openai_api_key: String, conversation_history_save_path: String) -> (r: Config)
        ensures
            r.api_key() == openai_api_key@,
            r.save_path() == conversation_history_save_path@,
    {
        Config { openai_api_key, conversation_history_save_path }
    }

    /// A configuration from the answers to the first-run questions: the key
    /// as typed, without surrounding white space; the snapshot path as typed,
    /// or `default_path` when the answer is blank.
    pub fn from_answers(api_key_answer: &str, path_answer: &str, default_path: String) -> (r: Config)
        ensures
            r.api_key() == trimmed(api_key_answer@),
            r.save_path() == if trimmed(path_answer@).len() > 0 {
                trimmed(path_answer@)
            } else {
                default_path@
            },
    {
        let openai_api_key = trim_text(api_key_answer);
        let path = trim_text(path_answer);
        let conversation_history_save_path = if path.as_str().unicode_len() > 0 {
            path
        } else {
            default_path
        };
        Config { openai_api_key, conversation_history_save_path }
    }

    /// The language-model API key.
    pub fn openai_api_key(&self) -> (r: &str)
        ensures
            r@ == self.api_key(),
    {
        self.openai_api_key.as_str()
    }
}

} // verus!
