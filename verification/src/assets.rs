//! The asset provider: random communal goals, starting objects and turn
//! modifiers, drawn from fixed tables of playful phrases.
//!
//! The tables' texts are pairwise distinct, and selections draw from
//! pairwise-distinct slots, so what comes back is always distinct; only
//! which entries come back is left to chance.

use vstd::prelude::*;
use crate::text::concat3;

verus! {

/// Relies on `rand::random_range` over `0..n`: a uniformly random value
/// below `n`, from the thread-local generator.
#[verifier::external_body]
fn random_below(n: u64) -> (r: u64)
    requires
        n >= 1,
    ensures
        r < n,
{
    rand::random_range(0..n)
}

/// The texts of the modifier table, in order.
pub open spec fn modifier_texts() -> Seq<Seq<char>> {
    seq![
        "wearing a top hat"@,
        "holding a lightsaber"@,
        "wearing sunglasses"@,
        "riding a skateboard"@,
        "eating a pizza"@,
        "on fire (safely)"@,
        "covered in glitter"@,
        "wearing a cape"@,
        "holding a balloon"@,
        "wearing clown shoes"@,
        "surrounded by butterflies"@,
        "holding a sign that says 'Help'"@,
        "wearing a tutu"@,
        "holding a rubber chicken"@,
        "wearing a space helmet"@,
        "that is giant"@,
        "that is tiny"@,
        "that is glowing green"@,
        "that is invisible (mostly)"@,
        "made of jelly"@,
    ]
}

/// The texts of the starting-object pool, in order: the animal phrases
/// followed by the object phrases.
pub open spec fn starting_texts() -> Seq<Seq<char>> {
    seq![
        "A disco-dancing penguin"@,
        "A space-traveling hamster"@,
        "A surfing giraffe"@,
        "A monocle-wearing octopus"@,
        "A skateboarding bulldog"@,
        "A wizard cat"@,
        "A weightlifting bunny"@,
        "A scuba-diving elephant"@,
        "A jetpack-wearing sloth"@,
        "A breakdancing turtle"@,
        "A karate-chopping kangaroo"@,
        "A DJ-ing dolphin"@,
        "A detective owl"@,
        "A chef raccoon"@,
        "A ballerina hippo"@,
        "A giant floating taco"@,
        "A sentient toaster"@,
        "A rocket-powered unicycle"@,
        "A crystal ball with a smiley face"@,
        "A rubber ducky with a crown"@,
        "A marshmallow castle"@,
        "A flying pizza slice"@,
        "A neon-glowing boombox"@,
        "A teapot that breathes bubbles"@,
        "A pair of sneakers with wings"@,
        "A golden banana trophy"@,
        "A hoverboard made of cookies"@,
        "A magic wand that shoots confetti"@,
        "A backpack full of rainbows"@,
        "A telescope that sees into the future"@,
    ]
}

/// No two entries of the modifier table are the same text.
pub proof fn lemma_modifier_texts_distinct()
    ensures
        forall|i: int, j: int| 0 <= i < j < 20 ==> modifier_texts()[i] != modifier_texts()[j],
{
    reveal_strlit("wearing a top hat");
    reveal_strlit("holding a lightsaber");
    reveal_strlit("wearing sunglasses");
    reveal_strlit("riding a skateboard");
    reveal_strlit("eating a pizza");
    reveal_strlit("on fire (safely)");
    reveal_strlit("covered in glitter");
    reveal_strlit("wearing a cape");
    reveal_strlit("holding a balloon");
    reveal_strlit("wearing clown shoes");
    reveal_strlit("surrounded by butterflies");
    reveal_strlit("holding a sign that says 'Help'");
    reveal_strlit("wearing a tutu");
    reveal_strlit("holding a rubber chicken");
    reveal_strlit("wearing a space helmet");
    reveal_strlit("that is giant");
    reveal_strlit("that is tiny");
    reveal_strlit("that is glowing green");
    reveal_strlit("that is invisible (mostly)");
    reveal_strlit("made of jelly");
    assert("wearing a top hat"@.len() == 17);
    assert("holding a lightsaber"@.len() == 20);
    assert("wearing sunglasses"@.len() == 18);
    assert("riding a skateboard"@.len() == 19);
    assert("eating a pizza"@.len() == 14);
    assert("on fire (safely)"@.len() == 16);
    assert("covered in glitter"@.len() == 18);
    assert("wearing a cape"@.len() == 14);
    assert("holding a balloon"@.len() == 17);
    assert("wearing clown shoes"@.len() == 19);
    assert("surrounded by butterflies"@.len() == 25);
    assert("holding a sign that says 'Help'"@.len() == 31);
    assert("wearing a tutu"@.len() == 14);
    assert("holding a rubber chicken"@.len() == 24);
    assert("wearing a space helmet"@.len() == 22);
    assert("that is giant"@.len() == 13);
    assert("that is tiny"@.len() == 12);
    assert("that is glowing green"@.len() == 21);
    assert("that is invisible (mostly)"@.len() == 26);
    assert("made of jelly"@.len() == 13);
    assert("wearing a top hat"@[0] == 'w');
    assert("holding a lightsaber"@[0] == 'h');
    assert("wearing sunglasses"@[0] == 'w');
    assert("riding a skateboard"@[0] == 'r');
    assert("eating a pizza"@[0] == 'e');
    assert("on fire (safely)"@[0] == 'o');
    assert("covered in glitter"@[0] == 'c');
    assert("wearing a cape"@[0] == 'w');
    assert("holding a balloon"@[0] == 'h');
    assert("wearing clown shoes"@[0] == 'w');
    assert("surrounded by butterflies"@[0] == 's');
    assert("holding a sign that says 'Help'"@[0] == 'h');
    assert("wearing a tutu"@[0] == 'w');
    assert("holding a rubber chicken"@[0] == 'h');
    assert("wearing a space helmet"@[0] == 'w');
    assert("that is giant"@[0] == 't');
    assert("that is tiny"@[0] == 't');
    assert("that is glowing green"@[0] == 't');
    assert("that is invisible (mostly)"@[0] == 't');
    assert("made of jelly"@[0] == 'm');
    assert("wearing a cape"@[10] == 'c');
    assert("wearing a tutu"@[10] == 't');
}

/// No two entries of the starting-object pool are the same text.
pub proof fn lemma_starting_texts_distinct()
    ensures
        forall|i: int, j: int| 0 <= i < j < 30 ==> starting_texts()[i] != starting_texts()[j],
{
    reveal_strlit("A disco-dancing penguin");
    reveal_strlit("A space-traveling hamster");
    reveal_strlit("A surfing giraffe");
    reveal_strlit("A monocle-wearing octopus");
    reveal_strlit("A skateboarding bulldog");
    reveal_strlit("A wizard cat");
    reveal_strlit("A weightlifting bunny");
    reveal_strlit("A scuba-diving elephant");
    reveal_strlit("A jetpack-wearing sloth");
    reveal_strlit("A breakdancing turtle");
    reveal_strlit("A karate-chopping kangaroo");
    reveal_strlit("A DJ-ing dolphin");
    reveal_strlit("A detective owl");
    reveal_strlit("A chef raccoon");
    reveal_strlit("A ballerina hippo");
    reveal_strlit("A giant floating taco");
    reveal_strlit("A sentient toaster");
    reveal_strlit("A rocket-powered unicycle");
    reveal_strlit("A crystal ball with a smiley face");
    reveal_strlit("A rubber ducky with a crown");
    reveal_strlit("A marshmallow castle");
    reveal_strlit("A flying pizza slice");
    reveal_strlit("A neon-glowing boombox");
    reveal_strlit("A teapot that breathes bubbles");
    reveal_strlit("A pair of sneakers with wings");
    reveal_strlit("A golden banana trophy");
    reveal_strlit("A hoverboard made of cookies");
    reveal_strlit("A magic wand that shoots confetti");
    reveal_strlit("A backpack full of rainbows");
    reveal_strlit("A telescope that sees into the future");
    assert("A disco-dancing penguin"@.len() == 23);
    assert("A space-traveling hamster"@.len() == 25);
    assert("A surfing giraffe"@.len() == 17);
    assert("A monocle-wearing octopus"@.len() == 25);
    assert("A skateboarding bulldog"@.len() == 23);
    assert("A wizard cat"@.len() == 12);
    assert("A weightlifting bunny"@.len() == 21);
    assert("A scuba-diving elephant"@.len() == 23);
    assert("A jetpack-wearing sloth"@.len() == 23);
    assert("A breakdancing turtle"@.len() == 21);
    assert("A karate-chopping kangaroo"@.len() == 26);
    assert("A DJ-ing dolphin"@.len() == 16);
    assert("A detective owl"@.len() == 15);
    assert("A chef raccoon"@.len() == 14);
    assert("A ballerina hippo"@.len() == 17);
    assert("A giant floating taco"@.len() == 21);
    assert("A sentient toaster"@.len() == 18);
    assert("A rocket-powered unicycle"@.len() == 25);
    assert("A crystal ball with a smiley face"@.len() == 33);
    assert("A rubber ducky with a crown"@.len() == 27);
    assert("A marshmallow castle"@.len() == 20);
    assert("A flying pizza slice"@.len() == 20);
    assert("A neon-glowing boombox"@.len() == 22);
    assert("A teapot that breathes bubbles"@.len() == 30);
    assert("A pair of sneakers with wings"@.len() == 29);
    assert("A golden banana trophy"@.len() == 22);
    assert("A hoverboard made of cookies"@.len() == 28);
    assert("A magic wand that shoots confetti"@.len() == 33);
    assert("A backpack full of rainbows"@.len() == 27);
    assert("A telescope that sees into the future"@.len() == 37);
    assert("A disco-dancing penguin"@[2] == 'd');
    assert("A space-traveling hamster"@[2] == 's');
    assert("A surfing giraffe"@[2] == 's');
    assert("A monocle-wearing octopus"@[2] == 'm');
    assert("A skateboarding bulldog"@[2] == 's');
    assert("A wizard cat"@[2] == 'w');
    assert("A weightlifting bunny"@[2] == 'w');
    assert("A scuba-diving elephant"@[2] == 's');
    assert("A jetpack-wearing sloth"@[2] == 'j');
    assert("A breakdancing turtle"@[2] == 'b');
    assert("A karate-chopping kangaroo"@[2] == 'k');
    assert("A DJ-ing dolphin"@[2] == 'D');
    assert("A detective owl"@[2] == 'd');
    assert("A chef raccoon"@[2] == 'c');
    assert("A ballerina hippo"@[2] == 'b');
    assert("A giant floating taco"@[2] == 'g');
    assert("A sentient toaster"@[2] == 's');
    assert("A rocket-powered unicycle"@[2] == 'r');
    assert("A crystal ball with a smiley face"@[2] == 'c');
    assert("A rubber ducky with a crown"@[2] == 'r');
    assert("A marshmallow castle"@[2] == 'm');
    assert("A flying pizza slice"@[2] == 'f');
    assert("A neon-glowing boombox"@[2] == 'n');
    assert("A teapot that breathes bubbles"@[2] == 't');
    assert("A pair of sneakers with wings"@[2] == 'p');
    assert("A golden banana trophy"@[2] == 'g');
    assert("A hoverboard made of cookies"@[2] == 'h');
    assert("A magic wand that shoots confetti"@[2] == 'm');
    assert("A backpack full of rainbows"@[2] == 'b');
    assert("A telescope that sees into the future"@[2] == 't');
    assert("A skateboarding bulldog"@[3] == 'k');
    assert("A scuba-diving elephant"@[3] == 'c');
}

/// The modifier table: its entries' texts are `modifier_texts()`.
fn modifiers() -> (r: Vec<String>)
    ensures
        r@.len() == 20,
        forall|k: int| 0 <= k < 20 ==> (#[trigger] r@[k])@ == modifier_texts()[k],
{
    let mut v: Vec<String> = Vec::new();
    v.push("wearing a top hat".to_owned());
    v.push("holding a lightsaber".to_owned());
    v.push("wearing sunglasses".to_owned());
    v.push("riding a skateboard".to_owned());
    v.push("eating a pizza".to_owned());
    v.push("on fire (safely)".to_owned());
    v.push("covered in glitter".to_owned());
    v.push("wearing a cape".to_owned());
    v.push("holding a balloon".to_owned());
    v.push("wearing clown shoes".to_owned());
    v.push("surrounded by butterflies".to_owned());
    v.push("holding a sign that says 'Help'".to_owned());
    v.push("wearing a tutu".to_owned());
    v.push("holding a rubber chicken".to_owned());
    v.push("wearing a space helmet".to_owned());
    v.push("that is giant".to_owned());
    v.push("that is tiny".to_owned());
    v.push("that is glowing green".to_owned());
    v.push("that is invisible (mostly)".to_owned());
    v.push("made of jelly".to_owned());
    v
}

/// The starting-object pool: its entries' texts are `starting_texts()`.
fn starting_pool() -> (r: Vec<String>)
    ensures
        r@.len() == 30,
        forall|k: int| 0 <= k < 30 ==> (#[trigger] r@[k])@ == starting_texts()[k],
{
    let mut v: Vec<String> = Vec::new();
    v.push("A disco-dancing penguin".to_owned());
    v.push("A space-traveling hamster".to_owned());
    v.push("A surfing giraffe".to_owned());
    v.push("A monocle-wearing octopus".to_owned());
    v.push("A skateboarding bulldog".to_owned());
    v.push("A wizard cat".to_owned());
    v.push("A weightlifting bunny".to_owned());
    v.push("A scuba-diving elephant".to_owned());
    v.push("A jetpack-wearing sloth".to_owned());
    v.push("A breakdancing turtle".to_owned());
    v.push("A karate-chopping kangaroo".to_owned());
    v.push("A DJ-ing dolphin".to_owned());
    v.push("A detective owl".to_owned());
    v.push("A chef raccoon".to_owned());
    v.push("A ballerina hippo".to_owned());
    v.push("A giant floating taco".to_owned());
    v.push("A sentient toaster".to_owned());
    v.push("A rocket-powered unicycle".to_owned());
    v.push("A crystal ball with a smiley face".to_owned());
    v.push("A rubber ducky with a crown".to_owned());
    v.push("A marshmallow castle".to_owned());
    v.push("A flying pizza slice".to_owned());
    v.push("A neon-glowing boombox".to_owned());
    v.push("A teapot that breathes bubbles".to_owned());
    v.push("A pair of sneakers with wings".to_owned());
    v.push("A golden banana trophy".to_owned());
    v.push("A hoverboard made of cookies".to_owned());
    v.push("A magic wand that shoots confetti".to_owned());
    v.push("A backpack full of rainbows".to_owned());
    v.push("A telescope that sees into the future".to_owned());
    v
}

/// The table of location phrases.
fn locations() -> (r: Vec<String>)
    ensures
        r@.len() == 15,
{
    let mut v: Vec<String> = Vec::new();
    v.push("in outer space".to_owned());
    v.push("on a tropical beach".to_owned());
    v.push("inside a giant candy bowl".to_owned());
    v.push("on top of a snowy mountain".to_owned());
    v.push("under the ocean".to_owned());
    v.push("in a futuristic neon city".to_owned());
    v.push("in a magical forest".to_owned());
    v.push("on a floating island".to_owned());
    v.push("at a robot disco".to_owned());
    v.push("inside a giant bubble".to_owned());
    v.push("at a dinosaur tea party".to_owned());
    v.push("on a cloud made of cotton candy".to_owned());
    v.push("inside a giant clock".to_owned());
    v.push("at a carnival for aliens".to_owned());
    v.push("in a library of floating books".to_owned());
    v
}

/// Draw `count` pairwise-distinct random indices below `n`, by a partial
/// shuffle of the index pool.
fn pick_distinct_indices(n: usize, count: usize) -> (r: Vec<usize>)
    requires
        count <= n,
    ensures
        r@.len() == count,
        forall|i: int| 0 <= i < count ==> r@[i] < n,
        forall|i: int, j: int| 0 <= i < j < count ==> r@[i] != r@[j],
{
    let mut pool: Vec<usize> = Vec::new();
    let mut i: usize = 0;
    while i < n
        invariant
            i <= n,
            pool@.len() == i,
            forall|a: int| 0 <= a < i ==> pool@[a] == a,
        decreases n - i,
    {
        pool.push(i);
        i += 1;
    }
    assert(forall|a: int, b: int| 0 <= a < b < n ==> pool@[a] != pool@[b]);
    let mut k: usize = 0;
    while k < count
        invariant
            k <= count,
            count <= n,
            pool@.len() == n,
            forall|a: int| 0 <= a < n ==> pool@[a] < n,
            forall|a: int, b: int| 0 <= a < b < n ==> pool@[a] != pool@[b],
        decreases count - k,
    {
        let offset = random_below((n - k) as u64);
        let j = k + (offset as usize);
        let ghost pre = pool@;
        let tk = pool[k];
        let tj = pool[j];
        pool[k] = tj;
        pool[j] = tk;
        proof {
            assert(pool@ =~= pre.update(k as int, pre[j as int]).update(j as int, pre[k as int]));
            assert forall|a: int, b: int| 0 <= a < b < n implies pool@[a] != pool@[b] by {
                assert(pre[a as int] != pre[b as int]);
            }
        }
        k += 1;
    }
    let mut r: Vec<usize> = Vec::new();
    let mut m: usize = 0;
    while m < count
        invariant
            m <= count,
            count <= n,
            pool@.len() == n,
            r@.len() == m,
            forall|a: int| 0 <= a < n ==> pool@[a] < n,
            forall|a: int, b: int| 0 <= a < b < n ==> pool@[a] != pool@[b],
            forall|a: int| 0 <= a < m ==> r@[a] == pool@[a],
        decreases count - m,
    {
        r.push(pool[m]);
        m += 1;
    }
    r
}

/// Whether `t` is the text of some entry of the modifier table.
pub open spec fn from_modifier_table(t: Seq<char>) -> bool {
    exists|k: int| 0 <= k < 20 && t == modifier_texts()[k]
}

/// Whether `t` is the text of some entry of the starting-object pool.
pub open spec fn from_starting_pool(t: Seq<char>) -> bool {
    exists|k: int| 0 <= k < 30 && t == starting_texts()[k]
}

/// Four freshly drawn turn options: four pairwise-distinct texts, each
/// an entry of the modifier table.
pub open spec fn fresh_options(opts: Seq<String>) -> bool {
    &&& opts.len() == 4
    &&& (forall|i: int, j: int| 0 <= i < j < 4 ==> (#[trigger] opts[i])@ != (#[trigger] opts[j])@)
    &&& (forall|i: int| 0 <= i < 4 ==> from_modifier_table((#[trigger] opts[i])@))
}

/// Generate a random composite communal goal together with one starting
/// object per player: the objects are drawn from pairwise-distinct slots
/// of the pool of animal and object phrases, so they are pairwise
/// distinct texts, each an entry of the pool; the goal is never empty.
#[verifier::loop_isolation(false)]
pub fn generate_game_assets(player_count: usize) -> (r: (String, Vec<String>))
    requires
        player_count <= 30,
    ensures
        r.0@.len() > 0,
        r.1@.len() == player_count,
        forall|i: int, j: int| 0 <= i < j < player_count ==> (#[trigger] r.1@[i])@ != (
        #[trigger] r.1@[j])@,
        forall|i: int| 0 <= i < player_count ==> from_starting_pool((#[trigger] r.1@[i])@),
{
    let pool = starting_pool();
    let location_table = locations();

    let a = random_below(15) as usize;
    let o = 15 + random_below(15) as usize;
    let l = random_below(15) as usize;
    let head = concat3(pool[a].as_str(), " holding ", pool[o].as_str());
    let communal_goal = concat3(head.as_str(), " ", location_table[l].as_str());
    proof {
        reveal_strlit(" holding ");
        assert(" holding "@.len() == 9);
        assert(communal_goal@.len() > 0);
    }

    let picks = pick_distinct_indices(30, player_count);
    let mut player_objects: Vec<String> = Vec::new();
    let mut i: usize = 0;
    while i < player_count
        invariant
            i <= player_count,
            player_objects@.len() == i,
            forall|a2: int| 0 <= a2 < i ==> (#[trigger] player_objects@[a2])@ == starting_texts()[
                picks@[a2] as int
            ],
        decreases player_count - i,
    {
        player_objects.push(pool[picks[i]].clone());
        i += 1;
    }
    proof {
        assert forall|x: int, y: int| 0 <= x < y < player_count implies (
        #[trigger] player_objects@[x])@ != (#[trigger] player_objects@[y])@ by {
            lemma_starting_texts_distinct();
            if picks@[x] < picks@[y] {
                assert(starting_texts()[picks@[x] as int] != starting_texts()[picks@[y] as int]);
            } else {
                assert(starting_texts()[picks@[y] as int] != starting_texts()[picks@[x] as int]);
            }
        }
        assert forall|x: int| 0 <= x < player_count implies from_starting_pool(
            (#[trigger] player_objects@[x])@,
        ) by {
            let kw = picks@[x] as int;
            assert(0 <= kw < 30 && player_objects@[x]@ == starting_texts()[kw]);
        }
    }
    (communal_goal, player_objects)
}

/// Generate 4 random modification options: pairwise-distinct texts,
/// each an entry of the modifier table.
#[verifier::loop_isolation(false)]
pub fn generate_modification_options() -> (r: Vec<String>)
    ensures
        fresh_options(r@),
{
    let table = modifiers();
    let picks = pick_distinct_indices(20, 4);
    let mut options: Vec<String> = Vec::new();
    let mut i: usize = 0;
    while i < 4
        invariant
            i <= 4,
            options@.len() == i,
            forall|a: int| 0 <= a < i ==> (#[trigger] options@[a])@ == modifier_texts()[
                picks@[a] as int
            ],
        decreases 4 - i,
    {
        options.push(table[picks[i]].clone());
        i += 1;
    }
    proof {
        assert forall|x: int, y: int| 0 <= x < y < 4 implies (#[trigger] options@[x])@ != (
        #[trigger] options@[y])@ by {
            lemma_modifier_texts_distinct();
            if picks@[x] < picks@[y] {
                assert(modifier_texts()[picks@[x] as int] != modifier_texts()[picks@[y] as int]);
            } else {
                assert(modifier_texts()[picks@[y] as int] != modifier_texts()[picks@[x] as int]);
            }
        }
        assert forall|x: int| 0 <= x < 4 implies from_modifier_table(
            (#[trigger] options@[x])@,
        ) by {
            let kw = picks@[x] as int;
            assert(0 <= kw < 20 && options@[x]@ == modifier_texts()[kw]);
        }
    }
    options
}

/// What applying a modifier to an object description yields: the object,
/// a space, and the modifier.
pub open spec fn applied_text(obj: Seq<char>, modifier: Seq<char>) -> Seq<char> {
    obj + seq![' '] + modifier
}

/// Apply a modification to an object description.
pub fn apply_modification(object: &str, modifier: &str) -> (r: String)
    ensures
        r@ == applied_text(object@, modifier@),
{
    let r = concat3(object, " ", modifier);
    proof {
        reveal_strlit(" ");
        assert(" "@ =~= seq![' ']);
        assert(r@ =~= applied_text(object@, modifier@));
    }
    r
}

} // verus!
