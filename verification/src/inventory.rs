//! Closure and iterator exercises: a shirt inventory with a giveaway
//! policy, and filtering shoes by size.

use vstd::prelude::*;

verus! {

/// A shirt colour.
#[derive(Debug, PartialEq, Eq, Structural, Copy, Clone)]
pub enum ShirtColor {
    Red,
    Blue,
}

/// How many shirts of colour `c` the sequence holds.
pub open spec fn count_color(s: Seq<ShirtColor>, c: ShirtColor) -> int
    decreases s.len(),
{
    if s.len() == 0 {
        0
    } else {
        count_color(s.drop_last(), c) + if s.last() == c {
            1int
        } else {
            0int
        }
    }
}

proof fn lemma_count_color_push(s: Seq<ShirtColor>, e: ShirtColor, c: ShirtColor)
    ensures
        count_color(s.push(e), c) == count_color(s, c) + if e == c {
            1int
        } else {
            0int
        },
{
    assert(s.push(e).drop_last() =~= s);
    assert(s.push(e).last() == e);
}

/// A stock of shirts.
pub struct Inventory {
    pub shirts: Vec<ShirtColor>,
}

impl Inventory {
    /// The colour the store hands out when the user has no preference:
    /// red exactly when more red shirts are in stock than blue ones.
    pub open spec fn spec_most_stocked(&self) -> ShirtColor {
        if count_color(self.shirts@, ShirtColor::Red) > count_color(
            self.shirts@,
            ShirtColor::Blue,
        ) {
            ShirtColor::Red
        } else {
            ShirtColor::Blue
        }
    }

    /// The preferred colour if one is given, the best-stocked one else.
    pub fn giveaway(&self, user_preference: Option<ShirtColor>) -> (r: ShirtColor)
        ensures
            r == match user_preference {
                Some(c) => c,
                None => self.spec_most_stocked(),
            },
    {
        match user_preference {
            Some(c) => c,
            None => self.most_stocked(),
        }
    }

    /// The colour with the most shirts in stock; blue wins a tie.
    pub fn most_stocked(&self) -> (r: ShirtColor)
        ensures
            r == self.spec_most_stocked(),
    {
        let mut num_red: usize = 0;
        let mut num_blue: usize = 0;
        let n = self.shirts.len();
        for i in 0..n
            invariant
                n == self.shirts@.len(),
                num_red == count_color(self.shirts@.take(i as int), ShirtColor::Red),
                num_blue == count_color(self.shirts@.take(i as int), ShirtColor::Blue),
                num_red + num_blue == i,
        {
            proof {
                assert(self.shirts@.take(i + 1) =~= self.shirts@.take(i as int).push(
                    self.shirts@[i as int],
                ));
                lemma_count_color_push(self.shirts@.take(i as int), self.shirts@[i as int],
                    ShirtColor::Red);
                lemma_count_color_push(self.shirts@.take(i as int), self.shirts@[i as int],
                    ShirtColor::Blue);
            }
            match self.shirts[i] {
                ShirtColor::Red => num_red += 1,
                ShirtColor::Blue => num_blue += 1,
            }
        }
        proof {
            assert(self.shirts@.take(n as int) =~= self.shirts@);
        }
        if num_red > num_blue {
            ShirtColor::Red
        } else {
            ShirtColor::Blue
        }
    }
}

/// A shoe, by size and style.
#[derive(Debug, PartialEq, Eq)]
pub struct Shoe {
    pub size: u32,
    pub style: String,
}

/// The shoes of the given size, in order.
pub open spec fn in_my_size(shoes: Seq<Shoe>, shoe_size: u32) -> Seq<Shoe> {
    shoes.filter(|s: Shoe| s.size == shoe_size)
}

proof fn lemma_in_my_size_push(shoes: Seq<Shoe>, e: Shoe, shoe_size: u32)
    ensures
        in_my_size(shoes.push(e), shoe_size) == if e.size == shoe_size {
            in_my_size(shoes, shoe_size).push(e)
        } else {
            in_my_size(shoes, shoe_size)
        },
{
    reveal(Seq::filter);
    assert(shoes.push(e).drop_last() =~= shoes);
    assert(shoes.push(e).last() == e);
}

/// Keep exactly the shoes of the given size, in their original order.
pub fn shoes_in_size(shoes: Vec<Shoe>, shoe_size: u32) -> (r: Vec<Shoe>)
    ensures
        r@ == in_my_size(shoes@, shoe_size),
{
    let ghost orig: Seq<Shoe> = shoes@;
    let mut r: Vec<Shoe> = Vec::new();
    for s in it: shoes.into_iter()
        invariant
            it.seq() == orig,
            r@ == in_my_size(it.seq().take(it.index() as int), shoe_size),
    {
        proof {
            assert(it.seq().take(it.index() + 1) =~= it.seq().take(it.index() as int).push(s));
            lemma_in_my_size_push(it.seq().take(it.index() as int), s, shoe_size);
        }
        if s.size == shoe_size {
            r.push(s);
        }
    }
    proof {
        assert(orig.take(orig.len() as int) =~= orig);
    }
    r
}

/// The identity closure, its types fixed by its first use.
pub fn infer_type() {
    let example_closure = |x: String| x;
    let _s = example_closure(String::from_str("hello"));
}

} // verus!
