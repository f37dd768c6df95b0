//! The list of the lights of a bridge.

use crate::light::{HueControl, HueLight};
use crate::text::{
    append_left_aligned, append_right_aligned, before, left_aligned, precedes, precedes_is_irreflexive,
    precedes_is_total, precedes_is_transitive, right_aligned,
};
use vstd::prelude::*;
use vstd::string::*;

verus! {

/// What a light can show, in words.
pub open spec fn colour_support(control: HueControl) -> Seq<char> {
    if control.colorgamut is Some {
        "RGB"@
    } else if control.ct is Some {
        "white temperature"@
    } else {
        "brightness only"@
    }
}

/// The line that tells of a light.
pub open spec fn line_of(id: Seq<char>, light: HueLight) -> Seq<char> {
    let kind = match light.productname {
        Some(kind) => kind@,
        None => "Hue light"@,
    };
    let switched = if light.state.on {
        "on"@
    } else {
        "off"@
    };
    "  "@ + right_aligned(id, 3) + "  "@ + left_aligned(light.name@, 28) + " "@ + kind + "; "@ + colour_support(
        light.capabilities.control,
    ) + " ("@ + switched + ")"@
}

/// Whether the lights come in the order of their ids.
pub open spec fn in_order(lights: Seq<(String, HueLight)>) -> bool {
    forall|i: int, j: int|
        #![trigger lights[i], lights[j]]
        0 <= i < j < lights.len() ==> !precedes(lights[j].0@, lights[i].0@)
}

/// The line that tells of a light.
pub fn light_line(id: &str, light: &HueLight) -> (line: String)
    ensures
        line@ == line_of(id@, *light),
{
    let mut line: String = "  ".to_owned();
    append_right_aligned(&mut line, id, 3);
    line.append("  ");
    append_left_aligned(&mut line, &light.name, 28);
    line.append(" ");
    match &light.productname {
        Some(kind) => line.append(kind),
        None => line.append("Hue light"),
    }
    line.append("; ");
    if light.capabilities.control.colorgamut.is_some() {
        line.append("RGB");
    } else if light.capabilities.control.ct.is_some() {
        line.append("white temperature");
    } else {
        line.append("brightness only");
    }
    line.append(" (");
    if light.state.on {
        line.append("on");
    } else {
        line.append("off");
    }
    line.append(")");
    line
}

/// The lights in the order of their ids.
pub fn sort_lights(lights: Vec<(String, HueLight)>) -> (sorted: Vec<(String, HueLight)>)
    ensures
        sorted@.to_multiset() == lights@.to_multiset(),
        in_order(sorted@),
{
    broadcast use vstd::seq_lib::group_to_multiset_ensures;

    let ghost all = lights@;
    let mut rest = lights;
    let mut sorted: Vec<(String, HueLight)> = Vec::new();
    assert(all.to_multiset() =~= rest@.to_multiset().add(sorted@.to_multiset()));
    while rest.len() > 0
        invariant
            in_order(sorted@),
            all.to_multiset() == rest@.to_multiset().add(sorted@.to_multiset()),
        decreases rest@.len(),
    {
        broadcast use vstd::seq_lib::group_to_multiset_ensures;

        let ghost unsorted = rest@;
        let ghost placed = sorted@;
        let entry = rest.pop().unwrap();
        let mut at: usize = 0;
        while at < sorted.len() && before(&sorted[at].0, &entry.0)
            invariant
                at <= sorted@.len(),
                forall|i: int| 0 <= i < at ==> precedes(#[trigger] sorted@[i].0@, entry.0@),
            decreases sorted@.len() - at,
        {
            at = at + 1;
        }
        sorted.insert(at, entry);
        proof {
            assert(unsorted =~= rest@.push(entry));
            assert(sorted@.to_multiset() =~= placed.to_multiset().insert(entry)) by {
                assert(sorted@.remove(at as int) =~= placed);
                assert(sorted@[at as int] == entry);
                assert(sorted@.contains(entry));
            }
            assert forall|i: int, j: int|
                #![trigger sorted@[i], sorted@[j]]
                0 <= i < j < sorted@.len() implies !precedes(sorted@[j].0@, sorted@[i].0@) by {
                let before_i = if i < at { i } else { i - 1 };
                let before_j = if j < at { j } else { j - 1 };
                if j == at {
                    precedes_is_irreflexive(entry.0@);
                    if precedes(entry.0@, sorted@[i].0@) {
                        precedes_is_transitive(entry.0@, sorted@[i].0@, entry.0@);
                    }
                } else if i == at {
                    // The one that was at this place does not come before the entry.
                    assert(!precedes(placed[at as int].0@, entry.0@));
                    if precedes(sorted@[j].0@, entry.0@) {
                        let first = placed[at as int].0@;
                        precedes_is_total(first, sorted@[j].0@);
                        if precedes(first, sorted@[j].0@) {
                            precedes_is_transitive(first, sorted@[j].0@, entry.0@);
                        }
                    }
                } else {
                    assert(sorted@[i] == placed[before_i]);
                    assert(sorted@[j] == placed[before_j]);
                }
            }
        }
    }
    assert(rest@.to_multiset() =~= vstd::multiset::Multiset::empty());
    assert(all.to_multiset() =~= sorted@.to_multiset());
    sorted
}

/// Whether the lines tell of the lights, in the order of their ids.
pub open spec fn lines_tell(lines: Seq<String>, lights: Seq<(String, HueLight)>) -> bool {
    exists|sorted: Seq<(String, HueLight)>|
        {
            &&& #[trigger] sorted.to_multiset() == lights.to_multiset()
            &&& in_order(sorted)
            &&& lines_match(lines, sorted)
        }
}

/// Whether each line tells of the light at the same place.
pub open spec fn lines_match(lines: Seq<String>, lights: Seq<(String, HueLight)>) -> bool {
    &&& lines.len() == lights.len()
    &&& forall|i: int| 0 <= i < lines.len() ==> (#[trigger] lines[i])@ == line_of(lights[i].0@, lights[i].1)
}

/// The lines that tell of the lights, in the order of their ids.
pub fn light_lines(lights: Vec<(String, HueLight)>) -> (lines: Vec<String>)
    ensures
        lines_tell(lines@, lights@),
{
    let ghost all = lights@;
    let sorted = sort_lights(lights);
    let mut lines: Vec<String> = Vec::new();
    let mut i: usize = 0;
    while i < sorted.len()
        invariant
            i <= sorted@.len(),
            lines@.len() == i,
            forall|k: int| 0 <= k < i ==> (#[trigger] lines@[k])@ == line_of(sorted@[k].0@, sorted@[k].1),
        decreases sorted@.len() - i,
    {
        lines.push(light_line(&sorted[i].0, &sorted[i].1));
        i = i + 1;
    }
    assert(sorted@.to_multiset() == all.to_multiset());
    lines
}

/// Whether no two lights have the same id.
pub open spec fn ids_differ(lights: Seq<(String, HueLight)>) -> bool {
    forall|i: int, j: int|
        #![trigger lights[i], lights[j]]
        0 <= i < j < lights.len() ==> lights[i].0@ != lights[j].0@
}

proof fn ordered_alike(a: Seq<(String, HueLight)>, b: Seq<(String, HueLight)>)
    requires
        a.to_multiset() == b.to_multiset(),
        in_order(a),
        in_order(b),
        ids_differ(a),
    ensures
        a == b,
    decreases a.len(),
{
    broadcast use vstd::seq_lib::group_to_multiset_ensures;

    a.to_multiset_ensures();
    b.to_multiset_ensures();
    assert(a.len() == b.len());
    if a.len() == 0 {
        assert(a =~= b);
    } else {
        assert(a[0] == b[0]) by {
            assert(a.contains(a[0]));
            assert(b.to_multiset().count(a[0]) > 0);
            assert(b.contains(a[0]));
            let j = choose|j: int| 0 <= j < b.len() && b[j] == a[0];
            assert(b.contains(b[0]));
            assert(a.to_multiset().count(b[0]) > 0);
            assert(a.contains(b[0]));
            let i = choose|i: int| 0 <= i < a.len() && a[i] == b[0];
            if i > 0 && j > 0 {
                assert(!precedes(a[i].0@, a[0].0@));
                assert(!precedes(b[j].0@, b[0].0@));
                precedes_is_total(a[0].0@, b[0].0@);
                assert(a[0].0@ != a[i].0@);
            }
        }
        assert(a.remove(0) =~= a.subrange(1, a.len() as int));
        assert(b.remove(0) =~= b.subrange(1, b.len() as int));
        ordered_alike(a.remove(0), b.remove(0));
        assert(a =~= seq![a[0]] + a.remove(0));
        assert(b =~= seq![b[0]] + b.remove(0));
    }
}

proof fn rearranged_ids_differ(a: Seq<(String, HueLight)>, b: Seq<(String, HueLight)>)
    requires
        a.to_multiset() == b.to_multiset(),
        ids_differ(a),
    ensures
        ids_differ(b),
    decreases a.len(),
{
    broadcast use vstd::seq_lib::group_to_multiset_ensures;

    a.to_multiset_ensures();
    b.to_multiset_ensures();
    assert(a.len() == b.len());
    if b.len() > 0 {
        assert(b.contains(b[0]));
        assert(a.to_multiset().count(b[0]) > 0);
        assert(a.contains(b[0]));
        let k = choose|k: int| 0 <= k < a.len() && a[k] == b[0];
        let rest_a = a.remove(k);
        let rest_b = b.remove(0);
        assert(rest_a.to_multiset() =~= rest_b.to_multiset());
        rearranged_ids_differ(rest_a, rest_b);
        assert forall|i: int, j: int| #![trigger b[i], b[j]] 0 <= i < j < b.len() implies b[i].0@ != b[j].0@ by {
            assert(rest_b[j - 1] == b[j]);
            if i == 0 {
                assert(rest_b.contains(b[j]));
                assert(rest_a.to_multiset().count(b[j]) > 0);
                assert(rest_a.contains(b[j]));
                let m = choose|m: int| 0 <= m < rest_a.len() && rest_a[m] == b[j];
                let at = if m < k { m } else { m + 1 };
                assert(a[at] == b[j]);
                assert(a[k].0@ != a[at].0@);
            } else {
                assert(rest_b[i - 1] == b[i]);
            }
        }
    }
}

/// Whichever order the bridge gives its lights in, they are listed alike.
pub proof fn the_order_of_the_bridge_does_not_matter(
    lights: Seq<(String, HueLight)>,
    rearranged: Seq<(String, HueLight)>,
    lines: Seq<String>,
    other_lines: Seq<String>,
)
    requires
        ids_differ(lights),
        lights.to_multiset() == rearranged.to_multiset(),
        lines_tell(lines, lights),
        lines_tell(other_lines, rearranged),
    ensures
        lines.len() == other_lines.len(),
        forall|i: int| 0 <= i < lines.len() ==> (#[trigger] lines[i])@ == other_lines[i]@,
{
    let a = choose|sorted: Seq<(String, HueLight)>|
        {
            &&& #[trigger] sorted.to_multiset() == lights.to_multiset()
            &&& in_order(sorted)
            &&& lines_match(lines, sorted)
        };
    let b = choose|sorted: Seq<(String, HueLight)>|
        {
            &&& #[trigger] sorted.to_multiset() == rearranged.to_multiset()
            &&& in_order(sorted)
            &&& lines_match(other_lines, sorted)
        };
    rearranged_ids_differ(lights, a);
    ordered_alike(a, b);
}

/// The line of a light has its columns one behind the other: the id, at least
/// three wide and to the right; the name, at least twenty-eight wide and to the
/// left; the product, or a word for it; what the light can show; and whether it is
/// on.
pub proof fn a_line_has_its_columns(id: Seq<char>, light: HueLight, kind: Seq<char>, support: Seq<char>)
    requires
        light.productname matches Some(product) ==> kind == product@,
        light.productname is None ==> kind == "Hue light"@,
        light.capabilities.control.colorgamut is Some ==> support == "RGB"@,
        light.capabilities.control.colorgamut is None && light.capabilities.control.ct is Some ==> support
            == "white temperature"@,
        light.capabilities.control.colorgamut is None && light.capabilities.control.ct is None ==> support
            == "brightness only"@,
    ensures
        ({
            let line = line_of(id, light);
            let id_end = if id.len() < 3 {
                5
            } else {
                2 + id.len() as int
            };
            let name_end = id_end + 2 + (if light.name@.len() < 28 {
                28
            } else {
                light.name@.len() as int
            });
            let kind_end = name_end + 1 + kind.len();
            let support_end = kind_end + 2 + support.len();
            &&& id_end >= 2 + id.len()
            &&& line.subrange(id_end - id.len(), id_end) == id
            &&& forall|i: int| 0 <= i < id_end - id.len() ==> #[trigger] line[i] == ' '
            &&& line[id_end] == ' ' && line[id_end + 1] == ' '
            &&& line.subrange(id_end + 2, id_end + 2 + light.name@.len()) == light.name@
            &&& forall|i: int| id_end + 2 + light.name@.len() <= i <= name_end ==> #[trigger] line[i] == ' '
            &&& line.subrange(name_end + 1, kind_end) == kind
            &&& line.subrange(kind_end, kind_end + 2) == "; "@
            &&& line.subrange(kind_end + 2, support_end) == support
            &&& line.subrange(support_end, line.len() as int) == (if light.state.on {
                " (on)"@
            } else {
                " (off)"@
            })
        }),
{
    reveal_strlit("  ");
    reveal_strlit(" ");
    reveal_strlit("; ");
    reveal_strlit(" (");
    reveal_strlit(")");
    reveal_strlit("on");
    reveal_strlit("off");
    reveal_strlit(" (on)");
    reveal_strlit(" (off)");
    let line = line_of(id, light);
    let first = right_aligned(id, 3);
    let second = left_aligned(light.name@, 28);
    let switched = if light.state.on {
        "on"@
    } else {
        "off"@
    };
    let id_end = 2 + first.len() as int;
    let name_end = id_end + 2 + second.len();
    let kind_end = name_end + 1 + kind.len();
    let support_end = kind_end + 2 + support.len();
    assert(line.len() == support_end + 2 + switched.len() + 1);
    assert(line.subrange(id_end - id.len(), id_end) =~= id);
    assert(line.subrange(id_end + 2, id_end + 2 + light.name@.len()) =~= light.name@);
    assert(line.subrange(name_end + 1, kind_end) =~= kind);
    assert(line.subrange(kind_end, kind_end + 2) =~= "; "@);
    assert(line.subrange(kind_end + 2, support_end) =~= support);
    let end = line.subrange(support_end, line.len() as int);
    assert(end =~= " ("@ + switched + ")"@);
    assert(" ("@ + "on"@ + ")"@ =~= " (on)"@);
    assert(" ("@ + "off"@ + ")"@ =~= " (off)"@);
}

/// Every light has its line, there are no other lines, and of two lights the one
/// whose id comes first in dictionary order has its line first.
pub proof fn lights_are_listed_by_their_ids(
    lines: Seq<String>,
    lights: Seq<(String, HueLight)>,
    one: int,
    other: int,
) -> (places: (int, int))
    requires
        lines_tell(lines, lights),
        0 <= one < lights.len(),
        0 <= other < lights.len(),
        precedes(lights[one].0@, lights[other].0@),
    ensures
        lines.len() == lights.len(),
        0 <= places.0 < places.1 < lines.len(),
        lines[places.0]@ == line_of(lights[one].0@, lights[one].1),
        lines[places.1]@ == line_of(lights[other].0@, lights[other].1),
{
    broadcast use vstd::seq_lib::group_to_multiset_ensures;

    let sorted = choose|sorted: Seq<(String, HueLight)>|
        {
            &&& #[trigger] sorted.to_multiset() == lights.to_multiset()
            &&& in_order(sorted)
            &&& lines_match(lines, sorted)
        };
    sorted.to_multiset_ensures();
    lights.to_multiset_ensures();
    assert(lights.contains(lights[one]) && lights.contains(lights[other]));
    assert(sorted.to_multiset().count(lights[one]) > 0 && sorted.to_multiset().count(lights[other]) > 0);
    assert(sorted.contains(lights[one]) && sorted.contains(lights[other]));
    let a = choose|a: int| 0 <= a < sorted.len() && sorted[a] == lights[one];
    let b = choose|b: int| 0 <= b < sorted.len() && sorted[b] == lights[other];
    precedes_is_irreflexive(lights[one].0@);
    if b < a {
        assert(!precedes(sorted[a].0@, sorted[b].0@));
    }
    assert(lines[a]@ == line_of(sorted[a].0@, sorted[a].1));
    assert(lines[b]@ == line_of(sorted[b].0@, sorted[b].1));
    (a, b)
}

/// Every light has its line, and there are as many lines as lights.
pub proof fn every_light_has_its_line(lines: Seq<String>, lights: Seq<(String, HueLight)>, one: int) -> (place: int)
    requires
        lines_tell(lines, lights),
        0 <= one < lights.len(),
    ensures
        lines.len() == lights.len(),
        0 <= place < lines.len(),
        lines[place]@ == line_of(lights[one].0@, lights[one].1),
{
    broadcast use vstd::seq_lib::group_to_multiset_ensures;

    let sorted = choose|sorted: Seq<(String, HueLight)>|
        {
            &&& #[trigger] sorted.to_multiset() == lights.to_multiset()
            &&& in_order(sorted)
            &&& lines_match(lines, sorted)
        };
    sorted.to_multiset_ensures();
    lights.to_multiset_ensures();
    assert(lights.contains(lights[one]));
    assert(sorted.to_multiset().count(lights[one]) > 0);
    assert(sorted.contains(lights[one]));
    let a = choose|a: int| 0 <= a < sorted.len() && sorted[a] == lights[one];
    assert(lines[a]@ == line_of(sorted[a].0@, sorted[a].1));
    a
}

} // verus!
