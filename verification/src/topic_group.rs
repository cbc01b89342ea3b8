use cheetah_string::CheetahString;

use vstd::prelude::*;
use vstd::string::StringExecFns;

verus! {

/// What stands between topic and group in the key of a table entry.
pub const TOPIC_GROUP_SEPARATOR: char = '@';

/// Declares `cheetah_string::CheetahString`, the string type of topic and group names. It is
/// opaque; `cheetah_text` names the text that it holds.
#[verifier::external_type_specification]
#[verifier::external_body]
pub struct ExCheetahString(CheetahString);

/// The characters that a `CheetahString` holds.
pub uninterp spec fn cheetah_text(s: CheetahString) -> Seq<char>;

/// `CheetahString::as_str` lends the text that the string holds, whichever way it is stored. The
/// crate takes the stored bytes for UTF-8 without a check: whoever makes a `CheetahString` from
/// raw bytes vouches for them.
pub assume_specification[ CheetahString::as_str ](s: &CheetahString) -> (text: &str)
    ensures
        text@ == cheetah_text(*s),
;

/// The key of the table entry for a topic and a group.
pub open spec fn key_of(topic: Seq<char>, group: Seq<char>) -> Seq<char> {
    topic.push(TOPIC_GROUP_SEPARATOR) + group
}

/// Builds the key of the table entry for a topic and a group.
pub fn build_key(topic: &CheetahString, group: &CheetahString) -> (key: String)
    ensures
        key@ == key_of(cheetah_text(*topic), cheetah_text(*group)),
{
    build_key_from_text(topic.as_str(), group.as_str())
}

/// Builds the key of the table entry for a topic and a group given as plain text.
pub fn build_key_from_text(topic: &str, group: &str) -> (key: String)
    ensures
        key@ == key_of(topic@, group@),
{
    let mut key = topic.to_owned();
    proof {
        reveal_strlit("@");
    }
    key.append("@");
    key.append(group);
    assert(key@ == key_of(topic@, group@));
    key
}

} // verus!
