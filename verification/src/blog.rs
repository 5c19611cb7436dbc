//! A blog post going through the draft / review / published workflow.
//!
//! The post starts as an empty draft; once reviewed and approved it is
//! published, and only a published post shows its content.

use vstd::prelude::*;

verus! {

/// The workflow states of a post.
#[derive(Clone, Copy, Debug, PartialEq, Eq, Structural)]
pub enum PostState {
    /// Being written; shows no content.
    Draft,
    /// A review was requested; still shows no content.
    PendingReview,
    /// Approved; shows its content.
    Published,
}

/// A blog post: its workflow state and its text.
pub struct Post {
    state: PostState,
    content: String,
}

impl Post {
    /// The workflow state of the post.
    pub closed spec fn state(&self) -> PostState {
        self.state
    }

    /// The text added to the post so far.
    pub closed spec fn text(&self) -> Seq<char> {
        self.content@
    }

    /// A new, empty draft.
    pub fn new() -> (p: Post)
        ensures
            p.state() is Draft,
            p.text() == Seq::<char>::empty(),
    {
        Post { state: PostState::Draft, content: String::new() }
    }

    /// Appends `text` to the post's content.
    pub fn add_text(&mut self, text: &str)
        ensures
            final(self).state() == old(self).state(),
            final(self).text() == old(self).text() + text@,
    {
        self.content.append(text);
    }

    /// The visible content: the post's text once published, and nothing
    /// before that.
    pub fn content(&self) -> (s: &str)
        ensures
            self.state() is Published ==> s@ == self.text(),
            !(self.state() is Published) ==> s@ == Seq::<char>::empty(),
    {
        match self.state {
            PostState::Published => self.content.as_str(),
            _ => {
                let empty = "";
                proof {
                    reveal_strlit("");
                }
                empty
            },
        }
    }

    /// Asks for a review: a draft moves to pending review; any other state
    /// is unchanged.
    pub fn request_review(&mut self)
        ensures
            old(self).state() is Draft ==> final(self).state() is PendingReview,
            !(old(self).state() is Draft) ==> final(self).state() == old(self).state(),
            final(self).text() == old(self).text(),
    {
        if let PostState::Draft = self.state {
            self.state = PostState::PendingReview;
        }
    }

    /// Approves the post: a post pending review is published; any other
    /// state is unchanged.
    pub fn approve(&mut self)
        ensures
            old(self).state() is PendingReview ==> final(self).state() is Published,
            !(old(self).state() is PendingReview) ==> final(self).state() == old(self).state(),
            final(self).text() == old(self).text(),
    {
        if let PostState::PendingReview = self.state {
            self.state = PostState::Published;
        }
    }
}

/// The worked example: a draft shows nothing, a post under review still
/// shows nothing, and an approved post shows exactly what was written.
/// Each stage is checked statically.
pub fn run() {
    let mut post = Post::new();

    post.add_text("I wrote a Rust library today");
    let hidden = post.content();
    assert(hidden@ == Seq::<char>::empty());

    post.request_review();
    let still_hidden = post.content();
    assert(still_hidden@ == Seq::<char>::empty());

    post.approve();
    let shown = post.content();
    proof {
        assert(shown@ =~= "I wrote a Rust library today"@);
    }
}

} // verus!
