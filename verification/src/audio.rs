use vstd::prelude::*;
use vstd::string::*;

verus! {

/// The index of the last `.` in `name`, if it has one.
pub open spec fn last_dot(name: Seq<char>) -> Option<int>
    decreases name.len(),
{
    if name.len() == 0 {
        None
    } else if name.last() == '.' {
        Some(name.len() - 1)
    } else {
        last_dot(name.drop_last())
    }
}

/// The extension of a file name, as `std::path::Path::extension` documents it: none
/// where the name has no `.`, or its only `.` leads it (and none for `..`); otherwise
/// the part after the last `.`.
pub open spec fn file_extension(name: Seq<char>) -> Option<Seq<char>> {
    if name == seq!['.', '.'] {
        None
    } else {
        match last_dot(name) {
            None => None,
            Some(i) => if i == 0 {
                None
            } else {
                Some(name.skip(i + 1))
            },
        }
    }
}

/// A sound the asset player plays: its extension is exactly `ogg`.
pub open spec fn is_sound_name(name: Seq<char>) -> bool {
    file_extension(name) == Some(seq!['o', 'g', 'g'])
}

/// The positions, in order, of the names in `names` that are sounds.
pub open spec fn sound_positions(names: Seq<Seq<char>>) -> Seq<usize>
    decreases names.len(),
{
    if names.len() == 0 {
        Seq::empty()
    } else {
        let rest = sound_positions(names.drop_last());
        if is_sound_name(names.last()) {
            rest.push((names.len() - 1) as usize)
        } else {
            rest
        }
    }
}

proof fn last_dot_bounds(name: Seq<char>)
    ensures
        last_dot(name) matches Some(i) ==> 0 <= i < name.len() && name[i] == '.' && forall|j: int|
            i < j < name.len() ==> name[j] != '.',
        last_dot(name) is None ==> forall|j: int| 0 <= j < name.len() ==> name[j] != '.',
    decreases name.len(),
{
    if name.len() > 0 && name.last() != '.' {
        last_dot_bounds(name.drop_last());
        assert forall|j: int| 0 <= j < name.len() - 1 implies name.drop_last()[j] == name[j] by {}
    }
}

/// Finds the last `.` of `name` by scanning back from its end.
fn find_last_dot(name: &str) -> (r: Option<usize>)
    ensures
        match r {
            Some(i) => last_dot(name@) == Some(i as int) && i < name@.len(),
            None => last_dot(name@) is None,
        },
{
    let n = name.unicode_len();
    let mut k: usize = n;
    assert(name@.take(n as int) =~= name@);
    proof {
        last_dot_bounds(name@);
    }
    while k > 0
        invariant
            n == name@.len(),
            last_dot(name@) matches Some(i) ==> i < n,
            k <= n,
            last_dot(name@) == last_dot(name@.take(k as int)),
        decreases k,
    {
        let c = name.get_char(k - 1);
        let ghost pre = name@.take(k as int);
        assert(pre.last() == c);
        if c == '.' {
            return Some(k - 1);
        }
        assert(pre.drop_last() =~= name@.take(k - 1));
        k = k - 1;
    }
    assert(name@.take(0) =~= Seq::<char>::empty());
    None
}

/// Whether the asset player plays a file of this name: its extension is `ogg`.
pub fn is_sound_file(file_name: &str) -> (r: bool)
    ensures
        r == is_sound_name(file_name@),
{
    let n = file_name.unicode_len();
    if n == 2 && file_name.get_char(0) == '.' && file_name.get_char(1) == '.' {
        assert(file_name@ =~= seq!['.', '.']);
        return false;
    }
    assert(file_name@ != seq!['.', '.']);
    match find_last_dot(file_name) {
        None => false,
        Some(i) => {
            if i == 0 {
                return false;
            }
            if n - i != 4 {
                assert(file_name@.skip(i + 1).len() != 3);
                return false;
            }
            let r = file_name.get_char(i + 1) == 'o' && file_name.get_char(i + 2) == 'g'
                && file_name.get_char(i + 3) == 'g';
            assert(r == (file_name@.skip(i + 1) =~= seq!['o', 'g', 'g']));
            r
        },
    }
}

/// The positions, in order, of the file names in a directory that the asset player
/// plays.
pub fn sound_assets(names: &Vec<String>) -> (positions: Vec<usize>)
    ensures
        positions@ == sound_positions(names@.map_values(|s: String| s@)),
{
    let ghost views = names@.map_values(|s: String| s@);
    let mut positions: Vec<usize> = Vec::new();
    let n = names.len();
    let mut i: usize = 0;
    while i < n
        invariant
            n == names@.len(),
            views == names@.map_values(|s: String| s@),
            i <= n,
            positions@ == sound_positions(views.take(i as int)),
        decreases n - i,
    {
        let sound = is_sound_file(names[i].as_str());
        proof {
            assert(views.take(i + 1).drop_last() =~= views.take(i as int));
            assert(views.take(i + 1).last() == names@[i as int]@);
        }
        if sound {
            positions.push(i);
        }
        i = i + 1;
    }
    assert(views.take(n as int) =~= views);
    positions
}

/// The asset player plays every sound of the directory and nothing else, each once,
/// in the order of the listing: the positions are increasing, each names a sound,
/// and each sound's position is among them.
pub proof fn sound_positions_exact(names: Seq<Seq<char>>)
    requires
        names.len() <= usize::MAX,
    ensures
        forall|k: int|
            0 <= k < sound_positions(names).len() ==> {
                let p = #[trigger] sound_positions(names)[k];
                p < names.len() && is_sound_name(names[p as int])
            },
        forall|k: int, l: int|
            0 <= k < l < sound_positions(names).len() ==> #[trigger] sound_positions(names)[k]
                < #[trigger] sound_positions(names)[l],
        forall|i: int|
            0 <= i < names.len() && is_sound_name(#[trigger] names[i]) ==> sound_positions(
                names,
            ).contains(i as usize),
    decreases names.len(),
{
    if names.len() > 0 {
        let init = names.drop_last();
        sound_positions_exact(init);
        let rest = sound_positions(init);
        let all = sound_positions(names);
        let last = (names.len() - 1) as usize;
        assert forall|i: int| 0 <= i < init.len() implies init[i] == names[i] by {}
        assert forall|k: int| 0 <= k < rest.len() implies all[k] == rest[k] && #[trigger] rest[k]
            < last by {
            let p = rest[k];
            assert(p < init.len());
        }
        if is_sound_name(names.last()) {
            assert(all == rest.push(last));
            assert(all[rest.len() as int] == last);
        } else {
            assert(all == rest);
        }
        assert forall|k: int|
            0 <= k < all.len() implies {
                let p = #[trigger] all[k];
                p < names.len() && is_sound_name(names[p as int])
            } by {
            if k < rest.len() {
                let p = rest[k];
                assert(init[p as int] == names[p as int]);
            }
        }
        assert forall|k: int, l: int| 0 <= k < l < all.len() implies #[trigger] all[k]
            < #[trigger] all[l] by {
            if l < rest.len() {
                assert(rest[k] < rest[l]);
            }
        }
        assert forall|i: int|
            0 <= i < names.len() && is_sound_name(#[trigger] names[i]) implies all.contains(
                i as usize,
            ) by {
            if i < names.len() - 1 {
                assert(init[i] == names[i]);
                assert(rest.contains(i as usize));
                let k = choose|k: int| 0 <= k < rest.len() && rest[k] == i as usize;
                assert(all[k] == rest[k]);
            } else {
                assert(all[all.len() - 1] == i as usize);
            }
        }
    }
}

} // verus!
