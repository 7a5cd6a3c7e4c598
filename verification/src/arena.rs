//! The output and language arenas.
//!
//! Each arena is an ordered, append-oriented list whose entry 0 is a
//! fixed root placeholder; every parsed element is a child of that root,
//! addressed by its ordinal distance from the newest child.  Removal
//! really removes, keeping the order of the rest.
use vstd::prelude::*;

use crate::element::{opt_elem_view, ParserElement};
use crate::func::{desc_view, opt_desc_view, ParserFunctionTypeAndParam};
use crate::model::{append_desc, append_el, current_parent_model, desc_seq_view, elems_view,
    find_var_idx, find_var_idx_from, find_var_model, nth_last, nth_last_desc, remove_nth_last};
use crate::state::Parser;

verus! {

/// Index of the first element of `v` whose variable name is `name`.
pub(crate) fn find_var_index(v: &Vec<ParserElement>, name: &str) -> (r: Option<usize>)
    ensures
        match r {
            Some(u) => u < v@.len() && find_var_idx(elems_view(v@), name@) == Some(u as int),
            None => find_var_idx(elems_view(v@), name@) is None,
        },
{
    let mut i: usize = 0;
    while i < v.len()
        invariant
            i <= v@.len(),
            find_var_idx(elems_view(v@), name@) == find_var_idx_from(
                elems_view(v@),
                name@,
                i as int,
            ),
        decreases v@.len() - i,
    {
        let hit = match &v[i].var_name {
            Some(n) => crate::prims::str_is(n.as_str(), name),
            None => false,
        };
        if hit {
            return Some(i);
        }
        i = i + 1;
    }
    None
}

impl Parser {
    /// Finds the element bound to `var_name`, if the parse has created
    /// one: the first element carrying that variable name.
    pub fn output_arena_find_element_var(self, var_name: &str) -> (r: Option<ParserElement>)
        ensures
            opt_elem_view(r) == find_var_model(self@.output, var_name@),
    {
        match find_var_index(&self.output_arena, var_name) {
            Some(i) => Some(self.output_arena[i].clone()),
            None => None,
        }
    }

    /// Appends `el` as the newest child of the fixed parent.
    pub fn output_arena_append_element(self, el: ParserElement) -> (r: Parser)
        ensures
            r@ == append_el(self@, el@),
    {
        let mut s = self;
        s.output_arena.push(el);
        proof {
            assert(elems_view(s.output_arena@) =~= append_el(self@, el@).output);
        }
        s
    }

    /// Appends a descriptor as the newest child of the language arena's
    /// fixed parent.
    pub fn language_arena_append_functionTypeAndParam(
        self,
        fp: ParserFunctionTypeAndParam,
    ) -> (r: Parser)
        ensures
            r@ == append_desc(self@, desc_view(fp)),
    {
        let mut s = self;
        let ghost d = desc_view(fp);
        s.language_arena.push(fp);
        proof {
            assert(desc_seq_view(s.language_arena@) =~= append_desc(self@, d).lang);
        }
        s
    }

    /// The element the fixed parent pointer refers to.
    pub fn output_arena_get_current_parent_element(self) -> (r: Option<ParserElement>)
        ensures
            opt_elem_view(r) == current_parent_model(self@),
    {
        if self.output_arena_node_parent_id < self.output_arena.len() {
            Some(self.output_arena[self.output_arena_node_parent_id].clone())
        } else {
            None
        }
    }

    /// The newest child of the fixed parent, if it has one.
    pub fn output_arena_get_last_child_element(self) -> (r: Option<ParserElement>)
        ensures
            opt_elem_view(r) == nth_last(self@.output, 0),
    {
        self.output_arena_get_nth_last_child_element(0)
    }

    /// The newest descriptor of the language arena, if it has one.
    pub fn language_arena_get_last_child_functionTypeAndParam(
        self,
    ) -> (r: Option<ParserFunctionTypeAndParam>)
        ensures
            opt_desc_view(r) == nth_last_desc(self@.lang, 0),
    {
        let n = self.language_arena.len();
        if n >= 2 {
            Some(crate::func::clone_desc(&self.language_arena[n - 1]))
        } else {
            None
        }
    }

    /// The element `index` places back from the newest child (0 is the
    /// newest), without removing it.
    pub fn output_arena_get_nth_last_child_element(self, index: usize) -> (r: Option<
        ParserElement,
    >)
        ensures
            opt_elem_view(r) == nth_last(self@.output, index as int),
    {
        let n = self.output_arena.len();
        if n >= 2 && index <= n - 2 {
            Some(self.output_arena[n - 1 - index].clone())
        } else {
            None
        }
    }

    /// Removes the element `index` places back from the newest child;
    /// with no such child the arena is left as it is.
    pub fn output_arena_remove_nth_last_child_element(self, index: usize) -> (r: Parser)
        ensures
            r@ == remove_nth_last(self@, index as int),
    {
        let ghost m = self@;
        let mut s = self;
        let n = s.output_arena.len();
        if n >= 2 && index <= n - 2 {
            s.output_arena.remove(n - 1 - index);
            proof {
                assert(elems_view(s.output_arena@) =~= remove_nth_last(m, index as int).output);
            }
        }
        s
    }
}

} // verus!
