//! The per-post context that classifies referenced post numbers.

use vstd::prelude::*;

verus! {

/// Knows which post numbers belong to the thread the post sits in; a quoted
/// number outside that set is a dead link.
pub struct PostParserContext {
    pub thread_post_numbers: Vec<u64>,
}

impl PostParserContext {
    pub fn new(thread_post_numbers: Vec<u64>) -> (r: PostParserContext)
        ensures
            r.thread_post_numbers@ == thread_post_numbers@,
    {
        PostParserContext { thread_post_numbers }
    }

    pub open spec fn spec_is_internal(self, post_no: u64) -> bool {
        self.thread_post_numbers@.contains(post_no)
    }

    /// Whether `post_no` refers to a post of the same thread.
    #[verifier::loop_isolation(false)]
    pub fn is_internal_thread_post(&self, post_no: u64) -> (r: bool)
        ensures
            r == self.spec_is_internal(post_no),
    {
        let mut i: usize = 0;
        while i < self.thread_post_numbers.len()
            invariant
                0 <= i <= self.thread_post_numbers@.len(),
                forall|j: int| 0 <= j < i ==> self.thread_post_numbers@[j] != post_no,
            decreases self.thread_post_numbers@.len() - i,
        {
            if self.thread_post_numbers[i] == post_no {
                return true;
            }
            i += 1;
        }
        false
    }
}

} // verus!
