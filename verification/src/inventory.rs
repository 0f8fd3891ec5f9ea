//! A shirt giveaway: a customer gets the colour that they asked for, or
//! else the colour of which the store has the most.

use vstd::prelude::*;

verus! {

/// The colours in which the shirts come.
#[derive(Debug, PartialEq, Eq, Copy, Clone, Structural)]
pub enum ShirtColor {
    Red,
    Blue,
}

/// The test that a shirt has the colour `color`.
pub open spec fn has_color(color: ShirtColor) -> spec_fn(ShirtColor) -> bool {
    |shirt: ShirtColor| shirt == color
}

/// How many of `shirts` have the colour `color`.
pub open spec fn stock(shirts: Seq<ShirtColor>, color: ShirtColor) -> nat {
    shirts.filter(has_color(color)).len()
}

/// The colour of which `shirts` holds the most. Blue wins a tie.
pub open spec fn most_stocked_of(shirts: Seq<ShirtColor>) -> ShirtColor {
    if stock(shirts, ShirtColor::Red) > stock(shirts, ShirtColor::Blue) {
        ShirtColor::Red
    } else {
        ShirtColor::Blue
    }
}

/// The shirts that a store has left.
pub struct Inventory {
    pub shirts: Vec<ShirtColor>,
}

impl Inventory {
    /// The colour that a customer with the given preference gets: the
    /// preferred colour if there is one, else the most stocked colour.
    pub fn giveaway(&self, user_preference: Option<ShirtColor>) -> (color: ShirtColor)
        ensures
            color == match user_preference {
                Some(preferred) => preferred,
                None => most_stocked_of(self.shirts@),
            },
    {
        match user_preference {
            Some(preferred) => preferred,
            None => self.most_stocked(),
        }
    }

    /// The colour of which the store has the most shirts. Blue wins a tie.
    pub fn most_stocked(&self) -> (color: ShirtColor)
        ensures
            color == most_stocked_of(self.shirts@),
    {
        let ghost is_red = has_color(ShirtColor::Red);
        let ghost is_blue = has_color(ShirtColor::Blue);
        let mut num_red: usize = 0;
        let mut num_blue: usize = 0;
        let mut i: usize = 0;
        proof {
            self.shirts@.take(0).lemma_filter_len(is_red);
            self.shirts@.take(0).lemma_filter_len(is_blue);
        }
        while i < self.shirts.len()
            invariant
                i <= self.shirts.len(),
                is_red == has_color(ShirtColor::Red),
                is_blue == has_color(ShirtColor::Blue),
                num_red == self.shirts@.take(i as int).filter(is_red).len(),
                num_blue == self.shirts@.take(i as int).filter(is_blue).len(),
                num_red + num_blue <= i,
            decreases self.shirts.len() - i,
        {
            proof {
                let seen = self.shirts@.take(i as int);
                assert(self.shirts@.take(i + 1) =~= seen.push(self.shirts@[i as int]));
                seen.lemma_filter_len_push(is_red, self.shirts@[i as int]);
                seen.lemma_filter_len_push(is_blue, self.shirts@[i as int]);
            }
            match self.shirts[i] {
                ShirtColor::Red => {
                    num_red = num_red + 1;
                },
                ShirtColor::Blue => {
                    num_blue = num_blue + 1;
                },
            }
            i = i + 1;
        }
        assert(self.shirts@.take(i as int) =~= self.shirts@);
        if num_red > num_blue {
            ShirtColor::Red
        } else {
            ShirtColor::Blue
        }
    }
}

} // verus!
