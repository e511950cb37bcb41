use vstd::prelude::*;

verus! {

/// How the elements of a list are laid out.
#[derive(PartialEq, Eq, Structural, Clone, Copy, Debug)]
pub enum FSOBuilderListState {
    /// One element per line, no delimiters.
    MutlilineList,
    /// All elements on one line, within parentheses.
    InlineList,
}

/// The lists that a builder is inside of, outermost first.
#[derive(Debug)]
pub struct FSOBuilderState {
    pub list_state: Vec<FSOBuilderListState>,
}

impl Default for FSOBuilderState {
    fn default() -> (state: Self)
        ensures
            state.list_state@ == Seq::<FSOBuilderListState>::empty(),
    {
        FSOBuilderState { list_state: Vec::new() }
    }
}

/// A sink for serialized text that knows which lists it is inside of.
pub trait FSOBuilder: Sized {
    /// The text written so far.
    spec fn text(&self) -> Seq<char>;

    /// The lists the builder is inside of, outermost first.
    spec fn lists(&self) -> Seq<FSOBuilderListState>;

    /// Writes `content` after what was written before.
    fn append(&mut self, content: &str)
        ensures
            final(self).text() == old(self).text() + content@,
            final(self).lists() == old(self).lists(),
    ;

    /// Hands out the text written.
    fn spew(self) -> (text: String)
        ensures
            text@ == self.text(),
    ;

    /// The nesting state, to read or to change. The text stays as it is.
    fn get_state(&mut self) -> (state: &mut FSOBuilderState)
        ensures
            state.list_state@ == old(self).lists(),
            final(self).lists() == final(state).list_state@,
            final(self).text() == old(self).text(),
    ;

    /// The innermost list the builder is inside of, if any.
    fn current_list(&mut self) -> (r: Option<FSOBuilderListState>)
        ensures
            final(self).text() == old(self).text(),
            final(self).lists() == old(self).lists(),
            r == if old(self).lists().len() > 0 {
                Some(old(self).lists().last())
            } else {
                None
            },
    {
        let state = self.get_state();
        let n = state.list_state.len();
        if n > 0 {
            Some(state.list_state[n - 1])
        } else {
            None
        }
    }

    /// Enters a list laid out as `mode`.
    fn push_list(&mut self, mode: FSOBuilderListState)
        ensures
            final(self).text() == old(self).text(),
            final(self).lists() == old(self).lists().push(mode),
    {
        let state = self.get_state();
        state.list_state.push(mode);
    }

    /// Leaves the innermost list, if there is one.
    fn pop_list(&mut self)
        ensures
            final(self).text() == old(self).text(),
            final(self).lists() == if old(self).lists().len() > 0 {
                old(self).lists().drop_last()
            } else {
                old(self).lists()
            },
    {
        let state = self.get_state();
        let _ = state.list_state.pop();
    }
}

/// A builder that gathers the text in memory.
pub struct FSOTableBuilder {
    buffer: String,
    state: FSOBuilderState,
}

impl Default for FSOTableBuilder {
    fn default() -> (builder: Self)
        ensures
            builder.text() == Seq::<char>::empty(),
            builder.lists() == Seq::<FSOBuilderListState>::empty(),
    {
        FSOTableBuilder { buffer: String::new(), state: FSOBuilderState::default() }
    }
}

impl FSOBuilder for FSOTableBuilder {
    closed spec fn text(&self) -> Seq<char> {
        self.buffer@
    }

    closed spec fn lists(&self) -> Seq<FSOBuilderListState> {
        self.state.list_state@
    }

    fn append(&mut self, content: &str) {
        self.buffer.append(content);
    }

    fn spew(self) -> (text: String) {
        self.buffer
    }

    fn get_state(&mut self) -> (state: &mut FSOBuilderState) {
        &mut self.state
    }
}

} // verus!
