//! Capture devices as the user picks them. A device is offered under an id made of its
//! kind (`mic` for an input, `sys` for an output recorded by loopback) and the id the
//! audio backend gives it, which is stable across reboots and reconnects where the display
//! name is not. Enumerating and opening devices is the caller's part.

use vstd::prelude::*;
use crate::text::{chars_of, same_text, string_of, sub_chars};

verus! {

/// A capture device as offered to the user.
pub struct DeviceInfo {
    pub id: String,
    pub name: String,
    pub loopback: bool,
}

/// The kind of a microphone.
pub const MIC: &'static str = "mic";

/// The kind of an output recorded by loopback.
pub const SYS: &'static str = "sys";

/// Separates the kind from the backend's id, whose own text already holds ':'.
pub const SEP: char = '|';

/// The id under which a device of kind `kind` with backend id `device` is offered.
pub open spec fn device_key(kind: Seq<char>, device: Seq<char>) -> Seq<char> {
    kind + seq!['|'] + device
}

/// A device as offered: under its kind and backend id, with its name, and marked as
/// loopback where it is an output.
pub fn describe(kind: &str, device: &str, name: String) -> (r: DeviceInfo)
    ensures
        r.id@ == device_key(kind@, device@),
        r.name == name,
        r.loopback == (kind@ == SYS@),
{
    let mut id = String::from_str(kind);
    id.append("|");
    id.append(device);
    proof {
        reveal_strlit("|");
        assert(kind@ + "|"@ + device@ =~= device_key(kind@, device@));
    }
    DeviceInfo { id, name, loopback: same_text(kind, SYS) }
}

/// Splits an offered id at its first separator into the kind and the backend id
/// (`str::split_once`), or `None` for an id with no separator.
pub fn split_device_id(id: &str) -> (r: Option<(String, String)>)
    ensures
        r is None <==> !id@.contains('|'),
        r matches Some((kind, device)) ==> !kind@.contains('|') && id@ == device_key(
            kind@,
            device@,
        ),
{
    let cs = chars_of(id);
    let mut i: usize = 0;
    while i < cs.len() && cs[i] != '|'
        invariant
            cs@ == id@,
            i <= cs.len(),
            forall|j: int| 0 <= j < i ==> cs@[j] != '|',
        decreases cs.len() - i,
    {
        i = i + 1;
    }
    if i == cs.len() {
        return None;
    }
    let kind = sub_chars(&cs, 0, i);
    let device = sub_chars(&cs, i + 1, cs.len());
    assert(id@ =~= device_key(kind@, device@));
    assert(!kind@.contains('|')) by {
        if kind@.contains('|') {
            let j = choose|j: int| 0 <= j < kind@.len() && kind@[j] == '|';
            assert(cs@[j] == '|');
        }
    }
    Some((string_of(&kind), string_of(&device)))
}

/// An offered id is read back as the kind and backend id it was made of, where the kind
/// holds no separator (`mic` and `sys` do not); the backend id may hold anything.
pub proof fn lemma_device_key_round_trip(
    kind: Seq<char>,
    device: Seq<char>,
    k: Seq<char>,
    d: Seq<char>,
)
    requires
        !kind.contains('|'),
        !k.contains('|'),
        device_key(k, d) == device_key(kind, device),
    ensures
        k == kind,
        d == device,
{
    let a = device_key(kind, device);
    assert(a[kind.len() as int] == '|');
    if k.len() < kind.len() {
        assert(a[k.len() as int] == '|');
        assert(kind[k.len() as int] == '|');
    } else if k.len() > kind.len() {
        assert(device_key(k, d)[kind.len() as int] == k[kind.len() as int]);
    }
    assert(k.len() == kind.len());
    assert forall|i: int| 0 <= i < k.len() implies k[i] == kind[i] by {
        assert(device_key(k, d)[i] == k[i]);
        assert(a[i] == kind[i]);
    }
    assert(k =~= kind);
    let head = kind + seq!['|'];
    assert(head.len() == kind.len() + 1);
    assert(a == head + device);
    assert(device_key(k, d) == head + d);
    assert((head + d).len() == head.len() + d.len());
    assert((head + device).len() == head.len() + device.len());
    assert(d.len() == device.len());
    assert forall|i: int| 0 <= i < d.len() implies d[i] == device[i] by {
        assert((head + d)[head.len() + i] == d[i]);
        assert((head + device)[head.len() + i] == device[i]);
    }
    assert(d =~= device);
}

/// Whether the kind read back from an id is that of a loopback output.
pub fn is_loopback_kind(kind: &str) -> (r: bool)
    ensures
        r == (kind@ == SYS@),
{
    same_text(kind, SYS)
}

} // verus!
