//! The kernel namespaces that a container can have of its own.
//!
//! `CloneFlags` is the `nix` crate's own set of flags. Contracts speak of its bits.
use vstd::prelude::*;
use vstd::string::*;

use nix::sched::CloneFlags;

use crate::text::{ascii_lower, is_ascii_text, joint, lowercase, same_text, texts, to_lowercase};

verus! {

broadcast use vstd::string::to_string_from_display_ensures_for_str;

/// A kind of namespace.
#[derive(Clone, Copy, PartialEq, Eq, Structural, Debug)]
pub enum Namespace {
    Uts,
    Pid,
    Mount,
    Network,
    Ipc,
    User,
    Cgroup,
}

/// The flag of a kind of namespace.
pub open spec fn namespace_bit(namespace: Namespace) -> i32 {
    match namespace {
        Namespace::Uts => 0x0400_0000,
        Namespace::Pid => 0x2000_0000,
        Namespace::Mount => 0x0002_0000,
        Namespace::Network => 0x4000_0000,
        Namespace::Ipc => 0x0800_0000,
        Namespace::User => 0x1000_0000,
        Namespace::Cgroup => 0x0200_0000,
    }
}

/// `nix::sched::CloneFlags`. Nothing is claimed of it here; see `flag_bits`.
#[verifier::external_type_specification]
#[verifier::external_body]
pub struct ExCloneFlags(CloneFlags);

/// The bits of the flags in a set.
pub uninterp spec fn flag_bits(flags: CloneFlags) -> i32;

/// `CloneFlags::empty` holds no flag.
#[verifier::external_body]
pub(crate) fn no_flags() -> (flags: CloneFlags)
    ensures
        flag_bits(flags) == 0,
{
    CloneFlags::empty()
}

/// `CloneFlags::insert` adds the flag's bit; the flags `CLONE_NEWUTS` to
/// `CLONE_NEWCGROUP` have the bits that Linux gives them.
#[verifier::external_body]
pub(crate) fn insert(flags: &mut CloneFlags, namespace: Namespace)
    ensures
        flag_bits(*final(flags)) == flag_bits(*old(flags)) | namespace_bit(namespace),
{
    flags.insert(match namespace {
        Namespace::Uts => CloneFlags::CLONE_NEWUTS,
        Namespace::Pid => CloneFlags::CLONE_NEWPID,
        Namespace::Mount => CloneFlags::CLONE_NEWNS,
        Namespace::Network => CloneFlags::CLONE_NEWNET,
        Namespace::Ipc => CloneFlags::CLONE_NEWIPC,
        Namespace::User => CloneFlags::CLONE_NEWUSER,
        Namespace::Cgroup => CloneFlags::CLONE_NEWCGROUP,
    })
}

/// `CloneFlags::bits` gives the bits of the flags.
#[verifier::external_body]
pub(crate) fn bits(flags: &CloneFlags) -> (out: i32)
    ensures
        out == flag_bits(*flags),
{
    flags.bits()
}

/// The kind of namespace with a name, which is written in lower case.
pub open spec fn namespace_named(name: Seq<char>) -> Option<Namespace> {
    if name == "uts"@ {
        Some(Namespace::Uts)
    } else if name == "pid"@ {
        Some(Namespace::Pid)
    } else if name == "mount"@ {
        Some(Namespace::Mount)
    } else if name == "network"@ {
        Some(Namespace::Network)
    } else if name == "ipc"@ {
        Some(Namespace::Ipc)
    } else if name == "user"@ {
        Some(Namespace::User)
    } else if name == "cgroup"@ {
        Some(Namespace::Cgroup)
    } else {
        None
    }
}

/// The kind of namespace with a name, which is written in lower case.
pub fn namespace(name: &str) -> (out: Option<Namespace>)
    ensures
        out == namespace_named(name@),
{
    if same_text(name, "uts") {
        Some(Namespace::Uts)
    } else if same_text(name, "pid") {
        Some(Namespace::Pid)
    } else if same_text(name, "mount") {
        Some(Namespace::Mount)
    } else if same_text(name, "network") {
        Some(Namespace::Network)
    } else if same_text(name, "ipc") {
        Some(Namespace::Ipc)
    } else if same_text(name, "user") {
        Some(Namespace::User)
    } else if same_text(name, "cgroup") {
        Some(Namespace::Cgroup)
    } else {
        None
    }
}

/// Each name in lower case.
pub open spec fn lowercased(names: Seq<Seq<char>>) -> Seq<Seq<char>> {
    Seq::new(names.len(), |i: int| lowercase(names[i]))
}

/// Each name with its ASCII letters in lower case.
pub open spec fn ascii_lowercased(names: Seq<Seq<char>>) -> Seq<Seq<char>> {
    Seq::new(names.len(), |i: int| names[i].map_values(|c: char| ascii_lower(c)))
}

/// Whether each name is an ASCII text.
pub open spec fn are_ascii(names: Seq<Seq<char>>) -> bool {
    forall|i: int| 0 <= i < names.len() ==> is_ascii_text(#[trigger] names[i])
}

/// The kinds of namespace that the names name.
pub open spec fn namespaces_named(names: Seq<Seq<char>>) -> Set<Namespace> {
    Set::new(
        |namespace: Namespace|
            exists|i: int|
                0 <= i < names.len() && namespace_named(#[trigger] names[i]) == Some(namespace),
    )
}

/// The bit of a kind of namespace, if it is in the set.
pub open spec fn bit_in(set: Set<Namespace>, namespace: Namespace) -> i32 {
    if set.contains(namespace) {
        namespace_bit(namespace)
    } else {
        0
    }
}

/// The bits of all the kinds of namespace in the set.
pub open spec fn namespace_bits(set: Set<Namespace>) -> i32 {
    bit_in(set, Namespace::Uts) | bit_in(set, Namespace::Pid) | bit_in(set, Namespace::Mount)
        | bit_in(set, Namespace::Network) | bit_in(set, Namespace::Ipc) | bit_in(
        set,
        Namespace::User,
    ) | bit_in(set, Namespace::Cgroup)
}

pub(crate) proof fn lemma_bits_of_one_more(set: Set<Namespace>, namespace: Namespace)
    ensures
        namespace_bits(set.insert(namespace)) == namespace_bits(set) | namespace_bit(namespace),
{
    let a = bit_in(set, Namespace::Uts);
    let b = bit_in(set, Namespace::Pid);
    let c = bit_in(set, Namespace::Mount);
    let d = bit_in(set, Namespace::Network);
    let e = bit_in(set, Namespace::Ipc);
    let f = bit_in(set, Namespace::User);
    let g = bit_in(set, Namespace::Cgroup);
    let x = namespace_bit(namespace);
    assert((a | b | c | d | e | f | g) | x == (a | x) | b | c | d | e | f | g) by (bit_vector);
    assert((a | b | c | d | e | f | g) | x == a | (b | x) | c | d | e | f | g) by (bit_vector);
    assert((a | b | c | d | e | f | g) | x == a | b | (c | x) | d | e | f | g) by (bit_vector);
    assert((a | b | c | d | e | f | g) | x == a | b | c | (d | x) | e | f | g) by (bit_vector);
    assert((a | b | c | d | e | f | g) | x == a | b | c | d | (e | x) | f | g) by (bit_vector);
    assert((a | b | c | d | e | f | g) | x == a | b | c | d | e | (f | x) | g) by (bit_vector);
    assert((a | b | c | d | e | f | g) | x == a | b | c | d | e | f | (g | x)) by (bit_vector);
    assert(0 | x == x) by (bit_vector);
    assert(x | x == x) by (bit_vector);
}

proof fn lemma_one_more_name(names: Seq<Seq<char>>, name: Seq<char>)
    ensures
        match namespace_named(name) {
            Some(namespace) => namespaces_named(names.push(name)) == namespaces_named(names).insert(
                namespace,
            ),
            None => namespaces_named(names.push(name)) == namespaces_named(names),
        },
{
    let more = names.push(name);
    assert forall|n: Namespace| namespaces_named(more).contains(n) <==> namespaces_named(
        names,
    ).contains(n) || namespace_named(name) == Some(n) by {
        if namespaces_named(names).contains(n) {
            let i = choose|i: int|
                0 <= i < names.len() && namespace_named(#[trigger] names[i]) == Some(n);
            assert(more[i] == names[i]);
        }
        if namespace_named(name) == Some(n) {
            assert(more[names.len() as int] == name);
        }
    }
    match namespace_named(name) {
        Some(n) => {
            assert(namespaces_named(more) =~= namespaces_named(names).insert(n));
        },
        None => {
            assert(namespaces_named(more) =~= namespaces_named(names));
        },
    }
}

/// Each name in lower case.
pub fn lower_names(names: &Vec<String>) -> (lowered: Vec<String>)
    ensures
        texts(lowered@) == lowercased(texts(names@)),
        are_ascii(texts(names@)) ==> texts(lowered@) == ascii_lowercased(texts(names@)),
{
    let mut lowered: Vec<String> = Vec::new();
    let mut i: usize = 0;
    let ghost ascii = ascii_lowercased(texts(names@));
    while i < names.len()
        invariant
            i <= names.len(),
            lowered@.len() == i,
            ascii == ascii_lowercased(texts(names@)),
            forall|k: int| 0 <= k < i ==> (#[trigger] lowered@[k])@ == lowercase(names@[k]@),
            forall|k: int|
                0 <= k < i && is_ascii_text(names@[k]@) ==> (#[trigger] lowered@[k])@ == ascii[k],
        decreases names.len() - i,
    {
        lowered.push(to_lowercase(names[i].as_str()));
        i = i + 1;
    }
    assert(texts(lowered@) =~= lowercased(texts(names@)));
    proof {
        if are_ascii(texts(names@)) {
            assert forall|k: int| 0 <= k < names@.len() implies is_ascii_text(
                #[trigger] names@[k]@,
            ) by {
                assert(texts(names@)[k] == names@[k]@);
            }
            assert(texts(lowered@) =~= ascii);
        }
    }
    lowered
}

/// The flags for the namespaces that the names name, which are written in lower case.
/// Names that no kind of namespace has are passed over.
pub fn flags_named(lowered: &Vec<String>) -> (flags: CloneFlags)
    ensures
        flag_bits(flags) == namespace_bits(namespaces_named(texts(lowered@))),
{
    let mut flags: CloneFlags = no_flags();
    let mut i: usize = 0;
    let ghost all = texts(lowered@);
    proof {
        assert(namespaces_named(all.take(0)) =~= Set::empty());
        assert(0i32 | 0 | 0 | 0 | 0 | 0 | 0 == 0) by (bit_vector);
    }
    while i < lowered.len()
        invariant
            i <= lowered.len(),
            all == texts(lowered@),
            flag_bits(flags) == namespace_bits(namespaces_named(all.take(i as int))),
        decreases lowered.len() - i,
    {
        proof {
            let name = lowered@[i as int]@;
            assert(all.take(i as int + 1) =~= all.take(i as int).push(name));
            lemma_one_more_name(all.take(i as int), name);
        }
        match namespace(lowered[i].as_str()) {
            Some(namespace) => {
                insert(&mut flags, namespace);
                proof {
                    lemma_bits_of_one_more(namespaces_named(all.take(i as int)), namespace);
                }
            },
            None => {},
        }
        i = i + 1;
    }
    assert(all.take(i as int) =~= all);
    flags
}

/// The flags for the namespaces that the names name, whatever the case of their
/// letters.
pub fn flags_for(names: &Vec<String>) -> (flags: CloneFlags)
    ensures
        flag_bits(flags) == namespace_bits(namespaces_named(lowercased(texts(names@)))),
        are_ascii(texts(names@)) ==> flag_bits(flags) == namespace_bits(
            namespaces_named(ascii_lowercased(texts(names@))),
        ),
{
    flags_named(&lower_names(names))
}

/// The lines that tell of the names that no kind of namespace has, in order.
pub open spec fn unknown_lines(lowered: Seq<Seq<char>>) -> Seq<Seq<char>>
    decreases lowered.len(),
{
    if lowered.len() == 0 {
        Seq::empty()
    } else {
        let before = unknown_lines(lowered.drop_last());
        if namespace_named(lowered.last()) is Some {
            before
        } else {
            before.push("warning: unknown namespace '"@ + lowered.last() + "', skipping"@)
        }
    }
}

/// The lines that tell of the names that no kind of namespace has, where the names are
/// written in lower case.
pub fn warnings_named(lowered: &Vec<String>) -> (lines: Vec<String>)
    ensures
        texts(lines@) == unknown_lines(texts(lowered@)),
{
    let mut lines: Vec<String> = Vec::new();
    let mut i: usize = 0;
    let ghost all = texts(lowered@);
    assert(texts(lines@) =~= unknown_lines(all.take(0)));
    while i < lowered.len()
        invariant
            i <= lowered.len(),
            all == texts(lowered@),
            texts(lines@) == unknown_lines(all.take(i as int)),
        decreases lowered.len() - i,
    {
        let ghost had = lines@;
        assert(all.take(i as int + 1).drop_last() =~= all.take(i as int));
        match namespace(lowered[i].as_str()) {
            Some(_) => {},
            None => {
                let start: String = joint("warning: unknown namespace '", lowered[i].as_str());
                lines.push(joint(start.as_str(), "', skipping"));
                assert(texts(lines@) =~= texts(had).push(
                    "warning: unknown namespace '"@ + all[i as int] + "', skipping"@,
                ));
            },
        }
        i = i + 1;
    }
    assert(all.take(i as int) =~= all);
    lines
}

/// The lines that tell of the names that no kind of namespace has.
pub fn warnings_for(names: &Vec<String>) -> (lines: Vec<String>)
    ensures
        texts(lines@) == unknown_lines(lowercased(texts(names@))),
        are_ascii(texts(names@)) ==> texts(lines@) == unknown_lines(
            ascii_lowercased(texts(names@)),
        ),
{
    warnings_named(&lower_names(names))
}

/// Neither the order of the names nor repeating one changes the flags: they depend
/// on which kinds of namespace are named at all.
pub proof fn law_order_and_repetition_do_not_matter(a: Seq<Seq<char>>, b: Seq<Seq<char>>)
    requires
        forall|name: Seq<char>| a.contains(name) <==> b.contains(name),
    ensures
        namespace_bits(namespaces_named(a)) == namespace_bits(namespaces_named(b)),
{
    assert forall|n: Namespace| namespaces_named(a).contains(n) <==> namespaces_named(b).contains(
        n,
    ) by {
        if namespaces_named(a).contains(n) {
            let i = choose|i: int| 0 <= i < a.len() && namespace_named(#[trigger] a[i]) == Some(n);
            assert(a.contains(a[i]));
            let j = choose|j: int| 0 <= j < b.len() && b[j] == a[i];
            assert(namespace_named(b[j]) == Some(n));
        }
        if namespaces_named(b).contains(n) {
            let i = choose|i: int| 0 <= i < b.len() && namespace_named(#[trigger] b[i]) == Some(n);
            assert(b.contains(b[i]));
            let j = choose|j: int| 0 <= j < a.len() && a[j] == b[i];
            assert(namespace_named(a[j]) == Some(n));
        }
    }
    assert(namespaces_named(a) =~= namespaces_named(b));
}

/// The flags hold the bit of a kind of namespace just if it is in the set.
pub proof fn law_flags_hold_what_is_named(set: Set<Namespace>, namespace: Namespace)
    ensures
        namespace_bits(set) & namespace_bit(namespace) != 0 <==> set.contains(namespace),
{
    let a = bit_in(set, Namespace::Uts);
    let b = bit_in(set, Namespace::Pid);
    let c = bit_in(set, Namespace::Mount);
    let d = bit_in(set, Namespace::Network);
    let e = bit_in(set, Namespace::Ipc);
    let f = bit_in(set, Namespace::User);
    let g = bit_in(set, Namespace::Cgroup);
    let all = a | b | c | d | e | f | g;
    assert({
        &&& all & 0x0400_0000 != 0 <==> a != 0
        &&& all & 0x2000_0000 != 0 <==> b != 0
        &&& all & 0x0002_0000 != 0 <==> c != 0
        &&& all & 0x4000_0000 != 0 <==> d != 0
        &&& all & 0x0800_0000 != 0 <==> e != 0
        &&& all & 0x1000_0000 != 0 <==> f != 0
        &&& all & 0x0200_0000 != 0 <==> g != 0
    }) by (bit_vector)
        requires
            all == a | b | c | d | e | f | g,
            a == 0 || a == 0x0400_0000,
            b == 0 || b == 0x2000_0000,
            c == 0 || c == 0x0002_0000,
            d == 0 || d == 0x4000_0000,
            e == 0 || e == 0x0800_0000,
            f == 0 || f == 0x1000_0000,
            g == 0 || g == 0x0200_0000,
    ;
}

/// The names of the kinds of namespace; any other name is that of none.
pub proof fn law_namespaces_have_their_names(name: Seq<char>)
    ensures
        namespace_named("uts"@) == Some(Namespace::Uts),
        namespace_named("pid"@) == Some(Namespace::Pid),
        namespace_named("mount"@) == Some(Namespace::Mount),
        namespace_named("network"@) == Some(Namespace::Network),
        namespace_named("ipc"@) == Some(Namespace::Ipc),
        namespace_named("user"@) == Some(Namespace::User),
        namespace_named("cgroup"@) == Some(Namespace::Cgroup),
        name != "uts"@ && name != "pid"@ && name != "mount"@ && name != "network"@ && name
            != "ipc"@ && name != "user"@ && name != "cgroup"@ ==> namespace_named(name) is None,
{
    reveal_strlit("uts");
    reveal_strlit("pid");
    reveal_strlit("mount");
    reveal_strlit("network");
    reveal_strlit("ipc");
    reveal_strlit("user");
    reveal_strlit("cgroup");
    assert("uts"@[0] == 'u' && "pid"@[0] == 'p' && "ipc"@[0] == 'i');
    assert("mount"@.len() == 5 && "network"@.len() == 7 && "user"@.len() == 4 && "cgroup"@.len()
        == 6);
}

/// The flags for a list of names hold the flag of a kind of namespace just if one of the
/// names is its name, and they hold nothing but such flags.
pub proof fn law_flags_are_those_of_the_names(names: Seq<Seq<char>>, namespace: Namespace)
    ensures
        namespace_bits(namespaces_named(names)) & namespace_bit(namespace) != 0 <==> exists|i: int|
            0 <= i < names.len() && namespace_named(#[trigger] names[i]) == Some(namespace),
        namespace_bits(namespaces_named(names)) & !0x7e02_0000i32 == 0,
{
    let set = namespaces_named(names);
    law_flags_hold_what_is_named(set, namespace);
    let a = bit_in(set, Namespace::Uts);
    let b = bit_in(set, Namespace::Pid);
    let c = bit_in(set, Namespace::Mount);
    let d = bit_in(set, Namespace::Network);
    let e = bit_in(set, Namespace::Ipc);
    let f = bit_in(set, Namespace::User);
    let g = bit_in(set, Namespace::Cgroup);
    assert((a | b | c | d | e | f | g) & !0x7e02_0000i32 == 0) by (bit_vector)
        requires
            a == 0 || a == 0x0400_0000,
            b == 0 || b == 0x2000_0000,
            c == 0 || c == 0x0002_0000,
            d == 0 || d == 0x4000_0000,
            e == 0 || e == 0x0800_0000,
            f == 0 || f == 0x1000_0000,
            g == 0 || g == 0x0200_0000,
    ;
}

/// The kinds of namespace have flags of their own.
pub proof fn law_flags_are_distinct(a: Namespace, b: Namespace)
    requires
        a != b,
    ensures
        namespace_bit(a) & namespace_bit(b) == 0,
        namespace_bit(a) != 0,
{
    let set = Set::<Namespace>::empty().insert(a);
    let x = namespace_bit(a);
    law_flags_hold_what_is_named(set, b);
    lemma_bits_of_one_more(Set::empty(), a);
    assert(0i32 | 0 | 0 | 0 | 0 | 0 | 0 == 0) by (bit_vector);
    assert(0 | x == x) by (bit_vector);
}

/// Every name is put into lower case, and none is lost.
pub proof fn law_every_name_is_lowered(names: Seq<Seq<char>>)
    ensures
        lowercased(names).len() == names.len(),
        forall|i: int|
            0 <= i < names.len() ==> #[trigger] lowercased(names)[i] == lowercase(names[i]),
        ascii_lowercased(names).len() == names.len(),
        forall|i: int|
            0 <= i < names.len() ==> (#[trigger] ascii_lowercased(names)[i]).len()
                == names[i].len(),
        forall|i: int, k: int|
            0 <= i < names.len() && 0 <= k < names[i].len() ==> #[trigger] ascii_lowercased(
                names,
            )[i][k] == if 'A' <= names[i][k] <= 'Z' {
                (names[i][k] as u32 + 32) as char
            } else {
                names[i][k]
            },
{
}

/// Each name that is that of no namespace is told of, and no other name: a single one by its
/// line, and those of lists in a row by the lines of the one list and then of the other.
pub proof fn law_unknown_names_are_told(
    name: Seq<char>,
    a: Seq<Seq<char>>,
    b: Seq<Seq<char>>,
)
    ensures
        unknown_lines(a + b) == unknown_lines(a) + unknown_lines(b),
        unknown_lines(seq![name]) == if namespace_named(name) is Some {
            Seq::empty()
        } else {
            seq!["warning: unknown namespace '"@ + name + "', skipping"@]
        },
        unknown_lines(Seq::empty()) == Seq::<Seq<char>>::empty(),
    decreases b.len(),
{
    assert(seq![name].drop_last() =~= Seq::empty());
    assert(unknown_lines(Seq::empty()) =~= Seq::empty());
    assert(unknown_lines(seq![name]) =~= if namespace_named(name) is Some {
        Seq::empty()
    } else {
        seq!["warning: unknown namespace '"@ + name + "', skipping"@]
    });
    if b.len() == 0 {
        assert(a + b =~= a);
        assert(unknown_lines(a) + unknown_lines(b) =~= unknown_lines(a));
    } else {
        assert((a + b).drop_last() =~= a + b.drop_last());
        law_unknown_names_are_told(name, a, b.drop_last());
        assert(unknown_lines(a + b) =~= unknown_lines(a) + unknown_lines(b));
    }
}

} // verus!
