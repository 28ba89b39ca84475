//! The confirmation text that deleting records asks for.
use vstd::prelude::*;
use vstd::string::*;

use crate::kafka::admin_service::DeleteRecordsTarget;
use crate::text::{decimal_int, i64_to_string, join_strings, join_with, push_char, strings_view};

verus! {

/// How a target is written in the confirmation text: `partition:offset`.
pub open spec fn target_text(t: DeleteRecordsTarget) -> Seq<char> {
    decimal_int(t.partition as int) + seq![':'] + decimal_int(t.before_offset as int)
}

/// The confirmation text for deleting records of `topic` on the connection
/// `profile_name`: `name/topic/` and the targets separated by commas.
pub open spec fn delete_confirmation(
    profile_name: Seq<char>,
    topic: Seq<char>,
    targets: Seq<DeleteRecordsTarget>,
) -> Seq<char> {
    profile_name + seq!['/'] + topic + seq!['/'] + join_with(
        targets.map_values(|t: DeleteRecordsTarget| target_text(t)),
        ',',
    )
}

/// The confirmation text the user must type to delete records.
pub fn expected_delete_confirmation(
    profile_name: &str,
    topic: &str,
    targets: &Vec<DeleteRecordsTarget>,
) -> (r: String)
    ensures
        r@ == delete_confirmation(profile_name@, topic@, targets@),
{
    let mut parts: Vec<String> = Vec::new();
    let mut i: usize = 0;
    while i < targets.len()
        invariant
            i <= targets@.len(),
            strings_view(parts@) == targets@.take(i as int).map_values(
                |t: DeleteRecordsTarget| target_text(t),
            ),
        decreases targets@.len() - i,
    {
        let t = targets[i];
        let mut part = i64_to_string(t.partition as i64);
        push_char(&mut part, ':');
        part.append(i64_to_string(t.before_offset).as_str());
        assert(part@ =~= target_text(t));
        let ghost before = parts@;
        parts.push(part);
        assert(targets@.take(i + 1) =~= targets@.take(i as int).push(t));
        assert(strings_view(parts@) =~= strings_view(before).push(target_text(t)));
        assert(targets@.take(i as int).push(t).map_values(|t: DeleteRecordsTarget| target_text(t))
            =~= targets@.take(i as int).map_values(|t: DeleteRecordsTarget| target_text(t)).push(
            target_text(t),
        ));
        assert(strings_view(parts@) =~= targets@.take(i + 1).map_values(
            |t: DeleteRecordsTarget| target_text(t),
        ));
        i = i + 1;
    }
    assert(targets@.take(targets@.len() as int) =~= targets@);
    let joined = join_strings(&parts, ',');
    let mut out = profile_name.to_owned();
    push_char(&mut out, '/');
    out.append(topic);
    push_char(&mut out, '/');
    out.append(joined.as_str());
    assert(out@ =~= delete_confirmation(profile_name@, topic@, targets@));
    out
}

} // verus!
