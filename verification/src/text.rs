//! Mathematical views of collections of strings.
//!
//! A `String` is viewed as its sequence of characters; the functions here
//! lift that view to a row of strings and to a grid of rows.

use vstd::prelude::*;

verus! {

/// A piece of text: a sequence of characters.
pub type Text = Seq<char>;

/// The texts of a row of strings, in order.
pub open spec fn texts(row: Seq<String>) -> Seq<Text> {
    Seq::new(row.len(), |i: int| row[i]@)
}

/// The texts of a grid of strings, row by row.
pub open spec fn grid(rows: Seq<Vec<String>>) -> Seq<Seq<Text>> {
    Seq::new(rows.len(), |i: int| texts(rows[i]@))
}

/// Pushing a string onto a row pushes its text onto the row's texts.
pub proof fn lemma_texts_push(row: Seq<String>, s: String)
    ensures
        texts(row.push(s)) == texts(row).push(s@),
{
    assert(texts(row.push(s)) =~= texts(row).push(s@));
}

/// Pushing a row onto a grid pushes its texts onto the grid's rows.
pub proof fn lemma_grid_push(rows: Seq<Vec<String>>, row: Vec<String>)
    ensures
        grid(rows.push(row)) == grid(rows).push(texts(row@)),
{
    assert(grid(rows.push(row)) =~= grid(rows).push(texts(row@)));
}

/// Whether `name` is the text of one of `names`.
pub fn contains_text(names: &Vec<String>, name: &String) -> (found: bool)
    ensures
        found == texts(names@).contains(name@),
{
    let mut i: usize = 0;
    while i < names.len()
        invariant
            i <= names.len(),
            forall|j: int| 0 <= j < i ==> texts(names@)[j] != name@,
        decreases names.len() - i,
    {
        if names[i] == *name {
            assert(texts(names@)[i as int] == name@);
            return true;
        }
        i += 1;
    }
    false
}

} // verus!
