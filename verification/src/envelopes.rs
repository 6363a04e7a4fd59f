//! The prompt files of a dispatch config and the role cards that stand next to them.

use crate::paths::{join_path, joined, parent_of, path_parent};
use crate::text::cat2;
use vstd::prelude::*;

verus! {

/// The files that prompts are put together from.
pub struct DispatchPromptEnvelopeConfig {
    pub preamble_file: String,
    pub fresh_envelope: String,
    pub followup_envelope: String,
    pub turn_context_file: String,
    pub issue_fresh_file: String,
    pub issue_followup_file: String,
}

/// The role card of a role: in the `roles` directory next to the preamble.
pub open spec fn card_path(preamble: Seq<char>, role: Seq<char>) -> Seq<char> {
    joined(
        match parent_of(preamble) {
            Some(dir) => joined(dir, "roles"@),
            None => "roles"@,
        },
        role + ".md"@,
    )
}

impl DispatchPromptEnvelopeConfig {
    /// The role card of a role.
    pub fn role_card_file_for(&self, role_name: &str) -> (r: String)
        ensures
            r@ == card_path(self.preamble_file@, role_name@),
    {
        let dir = match path_parent(self.preamble_file.as_str()) {
            Some(dir) => join_path(dir.as_str(), "roles"),
            None => "roles".to_owned(),
        };
        join_path(dir.as_str(), cat2(role_name, ".md").as_str())
    }
}

/// The card of a role is under its name in the directory of cards next to the preamble.
pub proof fn law_cards_are_next_to_the_preamble(dir: Seq<char>, preamble: Seq<char>, role: Seq<char>)
    ensures
        parent_of(preamble) == Some(dir) ==> card_path(preamble, role) == joined(
            joined(dir, "roles"@),
            role + ".md"@,
        ),
        parent_of(preamble) is None ==> card_path(preamble, role) == joined("roles"@, role + ".md"@),
{
}

} // verus!
