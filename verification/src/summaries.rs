//! Trait exercises: summaries of articles, authorship, the largest
//! element of a list, generic pairs and products, and the longer of two
//! string slices.

use vstd::prelude::*;
use vstd::string::StringExecFns;

verus! {

/// Something that can describe itself in one line.
pub trait Summary {
    /// The summary this value owes.
    spec fn spec_summary(&self) -> Seq<char>;

    /// The one-line summary.
    fn summarize(&self) -> (r: String)
        ensures
            r@ == self.spec_summary(),
    ;

    /// The summary, marked as a handle.
    fn summarize_author(&self) -> (r: String)
        ensures
            r@ == "@"@ + self.spec_summary(),
    {
        let mut r = String::from_str("@");
        let s = self.summarize();
        r.append(s.as_str());
        r
    }
}

/// Something with an author.
pub trait Author {
    /// The author handle this value owes.
    spec fn spec_author(&self) -> Seq<char>;

    /// The author handle.
    fn show_author(&self) -> (r: String)
        ensures
            r@ == self.spec_author(),
    ;
}

/// A news article.
pub struct NewsArticle {
    pub headline: String,
    pub location: String,
    pub author: String,
    pub content: String,
}

impl Summary for NewsArticle {
    open spec fn spec_summary(&self) -> Seq<char> {
        self.headline@ + ", by "@ + self.author@ + " "@ + self.location@
    }

    fn summarize(&self) -> (r: String) {
        let mut r = self.headline.clone();
        r.append(", by ");
        r.append(self.author.as_str());
        r.append(" ");
        r.append(self.location.as_str());
        r
    }
}

impl Author for NewsArticle {
    open spec fn spec_author(&self) -> Seq<char> {
        "@"@ + self.author@
    }

    fn show_author(&self) -> (r: String) {
        let mut r = String::from_str("@");
        r.append(self.author.as_str());
        r
    }
}

/// An article that summarizes itself.
pub fn returns_summarize() -> (r: NewsArticle)
    ensures
        r.headline@ == "Let me do it for you"@,
        r.location@ == "Japan"@,
        r.author@ == "Huaier"@,
        r.content@ == "So can I do it for you?"@,
{
    NewsArticle {
        headline: String::from_str("Let me do it for you"),
        location: String::from_str("Japan"),
        author: String::from_str("Huaier"),
        content: String::from_str("So can I do it for you?"),
    }
}

/// The largest element of a non-empty list.
pub fn largest(list: &Vec<i64>) -> (r: i64)
    requires
        list@.len() > 0,
    ensures
        list@.contains(r),
        forall|k: int| 0 <= k < list@.len() ==> list@[k] <= r,
{
    let mut largest_val: i64 = list[0];
    let n = list.len();
    for i in 1..n
        invariant
            n == list@.len(),
            list@.contains(largest_val),
            forall|k: int| 0 <= k < i ==> list@[k] <= largest_val,
    {
        if list[i] > largest_val {
            largest_val = list[i];
        }
    }
    largest_val
}

/// A pair of values of possibly different types.
pub struct Product<U, V> {
    pub fst: U,
    pub snd: V,
}

impl<U, V> Product<U, V> {
    /// The first component.
    pub fn fst(&self) -> (r: &U)
        ensures
            *r == self.fst,
    {
        &self.fst
    }

    /// The second component.
    pub fn snd(&self) -> (r: &V)
        ensures
            *r == self.snd,
    {
        &self.snd
    }
}

/// A pair of values of one type.
pub struct Pair<T> {
    pub x: T,
    pub y: T,
}

impl<T> Pair<T> {
    /// Wrap two values.
    pub fn new(x: T, y: T) -> (r: Self)
        ensures
            r.x == x,
            r.y == y,
    {
        Self { x, y }
    }
}

/// The longer of two string slices, measured in bytes; the second wins a
/// tie.
pub fn longest<'a>(x: &'a str, y: &'a str) -> (r: &'a str)
    ensures
        r@ == if x.len() > y.len() {
            x@
        } else {
            y@
        },
{
    if x.len() > y.len() {
        x
    } else {
        y
    }
}

/// String literals live for the whole program.
pub fn static_lifetime() {
    let _s: &'static str = "I have a static lifetime.";
}

} // verus!
