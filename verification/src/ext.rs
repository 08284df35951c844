//! The extension registry's list file: a JSON object mapping each extension
//! name to the path of the module that implements it. Reading the file is
//! the caller's business; this module parses the text and feeds the registry.

use vstd::prelude::*;
use vstd::string::StringSliceAdditionalSpecFns;
use crate::ctx::Context;

verus! {

/// What parsing an extension-list text yields: the name-to-path pairs of the
/// JSON object the text holds, in a fixed order, or nothing when the text is
/// not such an object.
pub uninterp spec fn extension_list_of(s: Seq<char>) -> Option<Seq<(Seq<char>, Seq<char>)>>;

/// The name-to-path pairs of a parse result, as sequences of characters.
pub open spec fn opt_pairs_view(r: Option<Vec<(String, String)>>) -> Option<
    Seq<(Seq<char>, Seq<char>)>,
> {
    match r {
        Some(v) => Some(v@.map_values(|p: (String, String)| (p.0@, p.1@))),
        None => None,
    }
}

/// Relies on serde_json::from_str: parses the text as a JSON object of
/// string keys and string values, in key order; the result depends on the
/// text alone. A text that is not such an object yields `None`.
#[verifier::external_body]
fn parse_extension_list(s: &str) -> (r: Option<Vec<(String, String)>>)
    ensures
        opt_pairs_view(r) == extension_list_of(s@),
{
    let map: std::collections::BTreeMap<String, String> = match serde_json::from_str(s) {
        Ok(m) => m,
        Err(_) => return None,
    };
    Some(map.into_iter().collect())
}

impl Context {
    /// Loads the list of extensions from the given text — the contents of
    /// the registry file. Says whether the text parsed; a text that did not
    /// parse leaves the registry as it was.
    pub fn load_extensions_list(&mut self, s: &str) -> (ok: bool)
        ensures
            *final(self) == (Context {
                extension_paths: final(self).extension_paths,
                ..*old(self)
            }),
            match extension_list_of(s@) {
                Some(pairs) => ok && final(self).extension_paths@.map_values(
                    |p: (String, String)| (p.0@, p.1@),
                ) == pairs,
                None => !ok && final(self).extension_paths@ == old(self).extension_paths@,
            },
    {
        match parse_extension_list(s) {
            Some(pairs) => {
                self.extension_paths = pairs;
                true
            },
            None => false,
        }
    }

    /// The module path registered for the given extension name, as queried
    /// on the wire, if the registry file listed one.
    pub fn get_extension_path(&self, name: &[u8]) -> (r: Option<&String>)
        ensures
            match r {
                Some(p) => exists|i: int|
                    0 <= i < self.extension_paths@.len() && vstd::utf8::encode_utf8((#[trigger] self.extension_paths@[i].0)@)
                        == name@ && self.extension_paths@[i].1@ == p@,
                None => forall|i: int|
                    0 <= i < self.extension_paths@.len() ==> vstd::utf8::encode_utf8((#[trigger] self.extension_paths@[i].0)@)
                        != name@,
            },
    {
        let mut i: usize = 0;
        while i < self.extension_paths.len()
            invariant
                i <= self.extension_paths@.len(),
                forall|j: int|
                    0 <= j < i ==> vstd::utf8::encode_utf8((#[trigger] self.extension_paths@[j].0)@) != name@,
            decreases self.extension_paths@.len() - i,
        {
            if crate::atoms::bytes_eq(self.extension_paths[i].0.as_str().as_bytes(), name) {
                return Some(&self.extension_paths[i].1);
            }
            i = i + 1;
        }
        None
    }
}

} // verus!
