use vstd::prelude::*;

verus! {

/// A body's coordinates in the shared ecliptic frame, over a scalar type `T`.
#[derive(Clone, Debug)]
pub struct Position<T> {
    pub object_name: String,
    pub x: T,
    pub y: T,
    pub z: T,
}

/// Why positions could not be re-expressed relative to a body.
#[derive(Clone, Copy, Debug, PartialEq, Eq, Structural)]
pub enum RelativeError {
    /// No position carries the requested reference name.
    MissingReference,
}

/// Some position in `s` is named `name`.
pub open spec fn has_name<T>(s: Seq<Position<T>>, name: Seq<char>) -> bool {
    exists|i: int| 0 <= i < s.len() && (#[trigger] s[i]).object_name@ == name
}

/// `k` is the first index of `s` whose position is named `name`.
pub open spec fn is_first_named<T>(s: Seq<Position<T>>, name: Seq<char>, k: int) -> bool {
    &&& 0 <= k < s.len()
    &&& s[k].object_name@ == name
    &&& forall|j: int| 0 <= j < k ==> (#[trigger] s[j]).object_name@ != name
}

/// The indices of `s`, in order, whose positions are not named `name`.
pub open spec fn kept_indices<T>(s: Seq<Position<T>>, name: Seq<char>) -> Seq<int>
    decreases s.len(),
{
    if s.len() == 0 {
        Seq::empty()
    } else {
        let prev = kept_indices(s.drop_last(), name);
        if s.last().object_name@ == name {
            prev
        } else {
            prev.push(s.len() - 1)
        }
    }
}

/// Every kept index is in range and names some other body.
pub proof fn lemma_kept_indices_valid<T>(s: Seq<Position<T>>, name: Seq<char>)
    ensures
        forall|j: int|
            0 <= j < kept_indices(s, name).len() ==> 0 <= #[trigger] kept_indices(s, name)[j]
                < s.len() && s[kept_indices(s, name)[j]].object_name@ != name,
    decreases s.len(),
{
    if s.len() > 0 {
        let rest = s.drop_last();
        lemma_kept_indices_valid(rest, name);
        assert forall|j: int| 0 <= j < kept_indices(rest, name).len() implies
            s[#[trigger] kept_indices(rest, name)[j]] == rest[kept_indices(rest, name)[j]] by {}
    }
}

/// Finds the first position named `name`.
pub fn find_named<T>(positions: &Vec<Position<T>>, name: &String) -> (r: Option<usize>)
    ensures
        r is None <==> !has_name(positions@, name@),
        r matches Some(k) ==> is_first_named(positions@, name@, k as int),
{
    let mut i: usize = 0;
    while i < positions.len()
        invariant
            i <= positions@.len(),
            forall|j: int| 0 <= j < i ==> (#[trigger] positions@[j]).object_name@ != name@,
        decreases positions@.len() - i,
    {
        if positions[i].object_name == *name {
            return Some(i);
        }
        i = i + 1;
    }
    None
}

/// Re-expresses every position relative to the first one named `reference`,
/// with `diff` taking the difference of two coordinates. The reference body
/// itself is left out of the result; the other bodies keep their order.
/// Fails with `MissingReference` exactly when no position has that name.
pub fn relative_to<T: Copy, F: Fn(T, T) -> T>(
    positions: &Vec<Position<T>>,
    reference: &String,
    diff: F,
) -> (r: Result<Vec<Position<T>>, RelativeError>)
    requires
        forall|a: T, b: T| diff.requires((a, b)),
    ensures
        r is Err <==> !has_name(positions@, reference@),
        r matches Err(e) ==> e == RelativeError::MissingReference,
        r matches Ok(out) ==> forall|k: int|
            is_first_named(positions@, reference@, k) ==> relative_entries(
                positions@,
                reference@,
                positions@[k],
                diff,
                out@,
            ),
        r matches Ok(out) ==> forall|j: int|
            0 <= j < out@.len() ==> (#[trigger] out@[j]).object_name@ != reference@,
{
    let k = match find_named(positions, reference) {
        None => {
            return Err(RelativeError::MissingReference);
        },
        Some(k) => k,
    };
    let origin_x = positions[k].x;
    let origin_y = positions[k].y;
    let origin_z = positions[k].z;
    let ghost origin = positions@[k as int];
    let mut out: Vec<Position<T>> = Vec::new();
    let mut i: usize = 0;
    while i < positions.len()
        invariant
            i <= positions@.len(),
            forall|a: T, b: T| diff.requires((a, b)),
            origin_x == origin.x,
            origin_y == origin.y,
            origin_z == origin.z,
            relative_entries(positions@.subrange(0, i as int), reference@, origin, diff, out@),
        decreases positions@.len() - i,
    {
        let ghost before = positions@.subrange(0, i as int);
        let ghost after = positions@.subrange(0, i + 1);
        assert(after.drop_last() =~= before);
        proof {
            lemma_kept_indices_valid(before, reference@);
            assert forall|j: int| 0 <= j < kept_indices(before, reference@).len() implies
                after[#[trigger] kept_indices(before, reference@)[j]]
                == before[kept_indices(before, reference@)[j]] by {}
        }
        if positions[i].object_name != *reference {
            let p = &positions[i];
            let moved = Position {
                object_name: p.object_name.clone(),
                x: diff(p.x, origin_x),
                y: diff(p.y, origin_y),
                z: diff(p.z, origin_z),
            };
            out.push(moved);
        }
        i = i + 1;
    }
    assert(positions@.subrange(0, positions@.len() as int) =~= positions@);
    proof {
        lemma_kept_indices_valid(positions@, reference@);
        assert forall|j: int| is_first_named(positions@, reference@, j) implies relative_entries(
            positions@,
            reference@,
            positions@[j],
            diff,
            out@,
        ) by {
            if j < k {
                assert(positions@[j].object_name@ != reference@);
            } else if j > k {
                assert(positions@[k as int].object_name@ != reference@);
            }
        }
    }
    Ok(out)
}

/// Re-expresses every position relative to Earth, as `relative_to` does with
/// the reference name "Earth".
pub fn translate_to_earth<T: Copy, F: Fn(T, T) -> T>(positions: &Vec<Position<T>>, diff: F) -> (r:
    Result<Vec<Position<T>>, RelativeError>)
    requires
        forall|a: T, b: T| diff.requires((a, b)),
    ensures
        r is Err <==> !has_name(positions@, "Earth"@),
        r matches Err(e) ==> e == RelativeError::MissingReference,
        r matches Ok(out) ==> forall|k: int|
            is_first_named(positions@, "Earth"@, k) ==> relative_entries(
                positions@,
                "Earth"@,
                positions@[k],
                diff,
                out@,
            ),
        r matches Ok(out) ==> forall|j: int|
            0 <= j < out@.len() ==> (#[trigger] out@[j]).object_name@ != "Earth"@,
{
    let earth = String::from_str("Earth");
    relative_to(positions, &earth, diff)
}

/// `out` holds, in order, each position of `s` not named `name`, with its
/// coordinates taken relative to `origin` by `diff`.
pub open spec fn relative_entries<T, F: Fn(T, T) -> T>(
    s: Seq<Position<T>>,
    name: Seq<char>,
    origin: Position<T>,
    diff: F,
    out: Seq<Position<T>>,
) -> bool {
    let kept = kept_indices(s, name);
    &&& out.len() == kept.len()
    &&& forall|j: int|
        0 <= j < out.len() ==> {
            let p = s[kept[j]];
            &&& (#[trigger] out[j]).object_name@ == p.object_name@
            &&& diff.ensures((p.x, origin.x), out[j].x)
            &&& diff.ensures((p.y, origin.y), out[j].y)
            &&& diff.ensures((p.z, origin.z), out[j].z)
        }
}

} // verus!
