//! Other wallpaper managers that draw on the background layer, and the
//! warnings the daemon gives when one of them runs.

use vstd::prelude::*;

verus! {

/// The process names of the wallpaper managers that can hide the daemon's
/// surfaces, in the order they are checked.
pub open spec fn spec_managers() -> Seq<Seq<char>> {
    seq!["swww-daemon"@, "hyprpaper"@, "swaybg"@]
}

/// The warnings for a running manager.
pub open spec fn spec_manager_warnings(i: int) -> Seq<Seq<char>> {
    if i == 0 {
        seq![
            "Detected swww-daemon running"@,
            "swww and wayvid both use the Background layer"@,
            "This may cause wayvid to be hidden behind swww"@,
            "To fix: run 'killall swww-daemon' before starting wayvid"@,
            "Or remove swww from your compositor's autostart"@,
        ]
    } else if i == 1 {
        seq![
            "Detected hyprpaper running - may conflict with wayvid"@,
            "Consider stopping hyprpaper if wayvid is not visible"@,
        ]
    } else {
        seq![
            "Detected swaybg running - may conflict with wayvid"@,
            "Consider stopping swaybg if wayvid is not visible"@,
        ]
    }
}

/// The warnings for the managers that run, in check order.
pub open spec fn spec_conflict_warnings(running: Seq<bool>) -> Seq<Seq<char>> {
    (if running[0] {
        spec_manager_warnings(0)
    } else {
        Seq::empty()
    }) + (if running[1] {
        spec_manager_warnings(1)
    } else {
        Seq::empty()
    }) + (if running[2] {
        spec_manager_warnings(2)
    } else {
        Seq::empty()
    })
}

/// The process names to look for, in check order.
pub fn conflicting_managers() -> (v: Vec<&'static str>)
    ensures
        v@.len() == 3,
        forall|i: int| 0 <= i < 3 ==> (#[trigger] v@[i])@ == spec_managers()[i],
{
    vec!["swww-daemon", "hyprpaper", "swaybg"]
}

fn push_lines(out: &mut Vec<String>, i: usize)
    requires
        i < 3,
    ensures
        final(out)@.len() == old(out)@.len() + spec_manager_warnings(i as int).len(),
        forall|k: int| 0 <= k < old(out)@.len() ==> (#[trigger] final(out)@[k]) == old(out)@[k],
        forall|k: int|
            0 <= k < spec_manager_warnings(i as int).len() ==> (#[trigger] final(out)@[old(out)@.len() + k])@
                == spec_manager_warnings(i as int)[k],
{
    if i == 0 {
        out.push(String::from_str("Detected swww-daemon running"));
        out.push(String::from_str("swww and wayvid both use the Background layer"));
        out.push(String::from_str("This may cause wayvid to be hidden behind swww"));
        out.push(String::from_str("To fix: run 'killall swww-daemon' before starting wayvid"));
        out.push(String::from_str("Or remove swww from your compositor's autostart"));
    } else if i == 1 {
        out.push(String::from_str("Detected hyprpaper running - may conflict with wayvid"));
        out.push(String::from_str("Consider stopping hyprpaper if wayvid is not visible"));
    } else {
        out.push(String::from_str("Detected swaybg running - may conflict with wayvid"));
        out.push(String::from_str("Consider stopping swaybg if wayvid is not visible"));
    }
}

/// The warnings to give, given for each of `conflicting_managers()`
/// whether a process of that name runs.
pub fn check_wallpaper_conflicts(running: &Vec<bool>) -> (w: Vec<String>)
    requires
        running@.len() == 3,
    ensures
        w@.len() == spec_conflict_warnings(running@).len(),
        forall|k: int| 0 <= k < w@.len() ==> (#[trigger] w@[k])@ == spec_conflict_warnings(running@)[k],
{
    let mut w: Vec<String> = Vec::new();
    let ghost mut expected: Seq<Seq<char>> = Seq::empty();
    let mut i: usize = 0;
    while i < 3
        invariant
            running@.len() == 3,
            i <= 3,
            w@.len() == expected.len(),
            forall|k: int| 0 <= k < w@.len() ==> (#[trigger] w@[k])@ == expected[k],
            expected == (if i > 0 && running@[0] {
                spec_manager_warnings(0)
            } else {
                Seq::empty()
            }) + (if i > 1 && running@[1] {
                spec_manager_warnings(1)
            } else {
                Seq::empty()
            }) + (if i > 2 && running@[2] {
                spec_manager_warnings(2)
            } else {
                Seq::empty()
            }),
        decreases 3 - i,
    {
        if running[i] {
            let ghost before = w@;
            push_lines(&mut w, i);
            proof {
                let added = spec_manager_warnings(i as int);
                let ne = expected + added;
                assert forall|k: int| 0 <= k < w@.len() implies (#[trigger] w@[k])@ == ne[k] by {
                    if k < before.len() {
                        assert(w@[k] == before[k]);
                    } else {
                        assert(w@[before.len() + (k - before.len())]@ == added[k - before.len()]);
                    }
                }
                expected = ne;
            }
        }
        i = i + 1;
        proof {
            assert(expected =~= (if i > 0 && running@[0] {
                spec_manager_warnings(0)
            } else {
                Seq::empty()
            }) + (if i > 1 && running@[1] {
                spec_manager_warnings(1)
            } else {
                Seq::empty()
            }) + (if i > 2 && running@[2] {
                spec_manager_warnings(2)
            } else {
                Seq::empty()
            }));
        }
    }
    w
}

} // verus!
