//! GCC writes its diagnostics in Clang's format.

use crate::analyser::clang::{self, clang_messages};
use crate::text::lines_of;
use crate::types::{messages_view, Message};
use vstd::prelude::*;

verus! {

/// Finds GCC's diagnostics in `log`, which share Clang's format.
pub fn analyse(log: &str, project_dir: &str) -> (r: Vec<Message>)
    ensures
        messages_view(r@) == clang_messages(lines_of(log@), project_dir@),
{
    clang::analyse(log, project_dir)
}

} // verus!
