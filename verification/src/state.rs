//! The parser state.
//!
//! A `Parser` owns everything a parse touches: the input, the chomp
//! buffer, the two arenas, and the success flag.  Every operation takes
//! the state by value and returns it by value; a failed operation passes
//! the state through with `success` cleared, and backtracking clones the
//! state and discards the copy.
use vstd::prelude::*;

use crate::element::ParserElement;
use crate::func::{clone_desc, desc_view, ParserFunctionParam, ParserFunctionType,
    ParserFunctionTypeAndParam};
use crate::model::{chomp_cleared, desc_seq_view, elems_view, new_model, ParserModel};

verus! {

/// The parser state: the string being parsed, what remains of it, the
/// chomp buffer, the output and language arenas (ordered lists rooted at
/// a fixed placeholder at index 0), and the flags.
#[derive(Debug)]
pub struct Parser {
    pub input_original: String,
    pub input_remaining: String,
    pub language_arena: Vec<ParserFunctionTypeAndParam>,
    pub language_arena_node_parent_id: usize,
    pub output_arena: Vec<ParserElement>,
    pub output_arena_node_parent_id: usize,
    pub chomp: String,
    pub chomping: bool,
    pub success: bool,
    pub display_errors: bool,
}

impl View for Parser {
    type V = ParserModel;

    open spec fn view(&self) -> ParserModel {
        ParserModel {
            input_original: self.input_original@,
            input_remaining: self.input_remaining@,
            chomp: self.chomp@,
            chomping: self.chomping,
            success: self.success,
            display_errors: self.display_errors,
            output: elems_view(self.output_arena@),
            output_parent: self.output_arena_node_parent_id as int,
            lang: desc_seq_view(self.language_arena@),
            lang_parent: self.language_arena_node_parent_id as int,
        }
    }
}

/// A copy of the output arena, element for element.
pub fn clone_elements(v: &Vec<ParserElement>) -> (r: Vec<ParserElement>)
    ensures
        elems_view(r@) == elems_view(v@),
{
    let mut r: Vec<ParserElement> = Vec::new();
    let mut i: usize = 0;
    while i < v.len()
        invariant
            i <= v@.len(),
            r@.len() == i,
            forall|j: int| 0 <= j < i ==> r@[j]@ == v@[j]@,
        decreases v@.len() - i,
    {
        r.push(v[i].clone());
        i = i + 1;
    }
    proof {
        assert(elems_view(r@) =~= elems_view(v@));
    }
    r
}

/// A copy of the language arena, descriptor for descriptor.
pub fn clone_descs(v: &Vec<ParserFunctionTypeAndParam>) -> (r: Vec<ParserFunctionTypeAndParam>)
    ensures
        desc_seq_view(r@) == desc_seq_view(v@),
{
    let mut r: Vec<ParserFunctionTypeAndParam> = Vec::new();
    let mut i: usize = 0;
    while i < v.len()
        invariant
            i <= v@.len(),
            r@.len() == i,
            forall|j: int| 0 <= j < i ==> desc_view(r@[j]) == desc_view(v@[j]),
        decreases v@.len() - i,
    {
        r.push(clone_desc(&v[i]));
        i = i + 1;
    }
    proof {
        assert(desc_seq_view(r@) =~= desc_seq_view(v@));
    }
    r
}

impl Clone for Parser {
    /// The deep copy that backtracking relies on: the copy's state is the
    /// same as the original's, arenas included.
    fn clone(&self) -> (r: Self)
        ensures
            r@ == self@,
    {
        Parser {
            input_original: self.input_original.clone(),
            input_remaining: self.input_remaining.clone(),
            language_arena: clone_descs(&self.language_arena),
            language_arena_node_parent_id: self.language_arena_node_parent_id,
            output_arena: clone_elements(&self.output_arena),
            output_arena_node_parent_id: self.output_arena_node_parent_id,
            chomp: self.chomp.clone(),
            chomping: self.chomping,
            success: self.success,
            display_errors: self.display_errors,
        }
    }
}

impl Parser {
    /// A parser over `input_string`, ready to run: nothing consumed,
    /// chomping on, success set, both arenas holding only their root
    /// placeholder.
    pub fn new(input_string: &str) -> (p: Parser)
        ensures
            p@ == new_model(input_string@),
    {
        let mut output_arena: Vec<ParserElement> = Vec::new();
        output_arena.push(ParserElement::new());
        let mut language_arena: Vec<ParserFunctionTypeAndParam> = Vec::new();
        language_arena.push((ParserFunctionType::NoFunction, ParserFunctionParam::NoParam));
        let p = Parser {
            input_original: input_string.to_owned(),
            input_remaining: input_string.to_owned(),
            chomp: String::new(),
            chomping: true,
            language_arena,
            language_arena_node_parent_id: 0,
            output_arena,
            output_arena_node_parent_id: 0,
            success: true,
            display_errors: true,
        };
        proof {
            assert(elems_view(p.output_arena@) =~= new_model(input_string@).output);
            assert(desc_seq_view(p.language_arena@) =~= new_model(input_string@).lang);
        }
        p
    }

    /// Clears the chomp buffer and nothing else.
    pub fn chomp_clear(self) -> (r: Parser)
        ensures
            r@ == chomp_cleared(self@),
    {
        let mut s = self;
        s.chomp = String::new();
        s
    }
}

} // verus!
