//! The permission registry: the closed set of capability tags and their canonical names.

use vstd::prelude::*;
use vstd::string::StringExecFns;
use crate::text::{
    chars_of, eq_ignoring_case, fold, join, join_then_split, same_ignoring_case, split,
};

verus! {

/// A capability tag. The set is closed: every tag is listed by [`Permission::all`].
#[derive(Clone, Copy, Debug, PartialEq, Eq, Structural, Hash)]
pub enum Permission {
    /// Read the API documentation.
    DocsRead,
    /// Create invites; an invite can only carry permissions its creator holds.
    InviteWrite,
    /// List invites.
    InviteRead,
    /// Delete invites.
    InviteDelete,
    /// List users.
    UserRead,
    /// Delete another user whose permissions the actor dominates.
    UserDelete,
    /// Grant permissions that the actor holds.
    PermissionAdd,
    /// Revoke permissions from a user whose permissions the actor dominates.
    PermissionDelete,
    /// Delete another user's login tokens.
    TokenDelete,
    GenreWrite,
    GenreRead,
    GenreDelete,
    ArtistWrite,
    ArtistRead,
    ArtistDelete,
    AlbumWrite,
    AlbumRead,
    AlbumDelete,
    TrackWrite,
    TrackRead,
    TrackDelete,
    AudioWrite,
    AudioRead,
    AudioDelete,
}

/// A text that names no permission.
#[derive(Clone, Debug, PartialEq, Eq)]
pub struct UnknownPermission {
    /// The text as it was given.
    pub text: String,
}

/// Every permission, in declaration order.
pub open spec fn all_permissions() -> Seq<Permission> {
    seq![
        Permission::DocsRead,
        Permission::InviteWrite,
        Permission::InviteRead,
        Permission::InviteDelete,
        Permission::UserRead,
        Permission::UserDelete,
        Permission::PermissionAdd,
        Permission::PermissionDelete,
        Permission::TokenDelete,
        Permission::GenreWrite,
        Permission::GenreRead,
        Permission::GenreDelete,
        Permission::ArtistWrite,
        Permission::ArtistRead,
        Permission::ArtistDelete,
        Permission::AlbumWrite,
        Permission::AlbumRead,
        Permission::AlbumDelete,
        Permission::TrackWrite,
        Permission::TrackRead,
        Permission::TrackDelete,
        Permission::AudioWrite,
        Permission::AudioRead,
        Permission::AudioDelete,
    ]
}

/// `text` is the canonical name of `p`, up to the case of its ASCII letters.
pub open spec fn names(text: Seq<char>, p: Permission) -> bool {
    same_ignoring_case(text, p.spec_name())
}

/// The permission that `text` names, if it names one.
pub open spec fn spec_parse(text: Seq<char>) -> Option<Permission> {
    if exists|p: Permission| names(text, p) {
        Some(choose|p: Permission| names(text, p))
    } else {
        None
    }
}

/// The permissions that the texts of `pieces` name, in order; a text that names none
/// is passed over.
pub open spec fn recognized(pieces: Seq<Seq<char>>) -> Seq<Permission> {
    pieces.filter_map(|text: Seq<char>| spec_parse(text))
}

/// Behind one more piece, one more permission is recognized if the piece names one.
pub proof fn recognized_after_push(pieces: Seq<Seq<char>>, piece: Seq<char>)
    ensures
        recognized(pieces.push(piece)) == match spec_parse(piece) {
            Some(p) => recognized(pieces).push(p),
            None => recognized(pieces),
        },
        recognized(Seq::<Seq<char>>::empty()) == Seq::<Permission>::empty(),
{
    assert(pieces.push(piece).drop_last() =~= pieces);
    match spec_parse(piece) {
        Some(p) => {
            assert(recognized(pieces) + seq![p] =~= recognized(pieces).push(p));
        },
        None => {},
    }
}

/// The canonical names of `permissions`, in order.
pub open spec fn names_of(permissions: Seq<Permission>) -> Seq<Seq<char>> {
    permissions.map_values(|p: Permission| p.spec_name())
}

/// The permissions of a stored set: the comma-separated names that are recognized.
pub open spec fn stored_permissions(column: Option<Seq<char>>) -> Seq<Permission> {
    match column {
        Some(text) => recognized(split(text, ',')),
        None => Seq::<Permission>::empty(),
    }
}

impl Permission {
    /// The canonical name: the tag written in Pascal case.
    pub open spec fn spec_name(self) -> Seq<char> {
        match self {
            Permission::DocsRead => "DocsRead"@,
            Permission::InviteWrite => "InviteWrite"@,
            Permission::InviteRead => "InviteRead"@,
            Permission::InviteDelete => "InviteDelete"@,
            Permission::UserRead => "UserRead"@,
            Permission::UserDelete => "UserDelete"@,
            Permission::PermissionAdd => "PermissionAdd"@,
            Permission::PermissionDelete => "PermissionDelete"@,
            Permission::TokenDelete => "TokenDelete"@,
            Permission::GenreWrite => "GenreWrite"@,
            Permission::GenreRead => "GenreRead"@,
            Permission::GenreDelete => "GenreDelete"@,
            Permission::ArtistWrite => "ArtistWrite"@,
            Permission::ArtistRead => "ArtistRead"@,
            Permission::ArtistDelete => "ArtistDelete"@,
            Permission::AlbumWrite => "AlbumWrite"@,
            Permission::AlbumRead => "AlbumRead"@,
            Permission::AlbumDelete => "AlbumDelete"@,
            Permission::TrackWrite => "TrackWrite"@,
            Permission::TrackRead => "TrackRead"@,
            Permission::TrackDelete => "TrackDelete"@,
            Permission::AudioWrite => "AudioWrite"@,
            Permission::AudioRead => "AudioRead"@,
            Permission::AudioDelete => "AudioDelete"@,
        }
    }

    /// The position of the tag in [`all_permissions`].
    pub open spec fn spec_index(self) -> int {
        match self {
            Permission::DocsRead => 0,
            Permission::InviteWrite => 1,
            Permission::InviteRead => 2,
            Permission::InviteDelete => 3,
            Permission::UserRead => 4,
            Permission::UserDelete => 5,
            Permission::PermissionAdd => 6,
            Permission::PermissionDelete => 7,
            Permission::TokenDelete => 8,
            Permission::GenreWrite => 9,
            Permission::GenreRead => 10,
            Permission::GenreDelete => 11,
            Permission::ArtistWrite => 12,
            Permission::ArtistRead => 13,
            Permission::ArtistDelete => 14,
            Permission::AlbumWrite => 15,
            Permission::AlbumRead => 16,
            Permission::AlbumDelete => 17,
            Permission::TrackWrite => 18,
            Permission::TrackRead => 19,
            Permission::TrackDelete => 20,
            Permission::AudioWrite => 21,
            Permission::AudioRead => 22,
            Permission::AudioDelete => 23,
        }
    }

    /// Length and first two folded characters of the canonical name: enough to tell
    /// any two tags apart.
    spec fn fingerprint(self) -> (int, char, char) {
        match self {
            Permission::DocsRead => (8, 'd', 'o'),
            Permission::InviteWrite => (11, 'i', 'n'),
            Permission::InviteRead => (10, 'i', 'n'),
            Permission::InviteDelete => (12, 'i', 'n'),
            Permission::UserRead => (8, 'u', 's'),
            Permission::UserDelete => (10, 'u', 's'),
            Permission::PermissionAdd => (13, 'p', 'e'),
            Permission::PermissionDelete => (16, 'p', 'e'),
            Permission::TokenDelete => (11, 't', 'o'),
            Permission::GenreWrite => (10, 'g', 'e'),
            Permission::GenreRead => (9, 'g', 'e'),
            Permission::GenreDelete => (11, 'g', 'e'),
            Permission::ArtistWrite => (11, 'a', 'r'),
            Permission::ArtistRead => (10, 'a', 'r'),
            Permission::ArtistDelete => (12, 'a', 'r'),
            Permission::AlbumWrite => (10, 'a', 'l'),
            Permission::AlbumRead => (9, 'a', 'l'),
            Permission::AlbumDelete => (11, 'a', 'l'),
            Permission::TrackWrite => (10, 't', 'r'),
            Permission::TrackRead => (9, 't', 'r'),
            Permission::TrackDelete => (11, 't', 'r'),
            Permission::AudioWrite => (10, 'a', 'u'),
            Permission::AudioRead => (9, 'a', 'u'),
            Permission::AudioDelete => (11, 'a', 'u'),
        }
    }

    proof fn fingerprint_of_name(self)
        ensures
            self.spec_name().len() == self.fingerprint().0,
            fold(self.spec_name()[0]) == self.fingerprint().1,
            fold(self.spec_name()[1]) == self.fingerprint().2,
            self.fingerprint().0 >= 2,
    {
        reveal_strlit("DocsRead");
        reveal_strlit("InviteWrite");
        reveal_strlit("InviteRead");
        reveal_strlit("InviteDelete");
        reveal_strlit("UserRead");
        reveal_strlit("UserDelete");
        reveal_strlit("PermissionAdd");
        reveal_strlit("PermissionDelete");
        reveal_strlit("TokenDelete");
        reveal_strlit("GenreWrite");
        reveal_strlit("GenreRead");
        reveal_strlit("GenreDelete");
        reveal_strlit("ArtistWrite");
        reveal_strlit("ArtistRead");
        reveal_strlit("ArtistDelete");
        reveal_strlit("AlbumWrite");
        reveal_strlit("AlbumRead");
        reveal_strlit("AlbumDelete");
        reveal_strlit("TrackWrite");
        reveal_strlit("TrackRead");
        reveal_strlit("TrackDelete");
        reveal_strlit("AudioWrite");
        reveal_strlit("AudioRead");
        reveal_strlit("AudioDelete");
    }

    /// The canonical name of the tag.
    pub fn name(self) -> (r: &'static str)
        ensures
            r@ == self.spec_name(),
    {
        match self {
            Permission::DocsRead => "DocsRead",
            Permission::InviteWrite => "InviteWrite",
            Permission::InviteRead => "InviteRead",
            Permission::InviteDelete => "InviteDelete",
            Permission::UserRead => "UserRead",
            Permission::UserDelete => "UserDelete",
            Permission::PermissionAdd => "PermissionAdd",
            Permission::PermissionDelete => "PermissionDelete",
            Permission::TokenDelete => "TokenDelete",
            Permission::GenreWrite => "GenreWrite",
            Permission::GenreRead => "GenreRead",
            Permission::GenreDelete => "GenreDelete",
            Permission::ArtistWrite => "ArtistWrite",
            Permission::ArtistRead => "ArtistRead",
            Permission::ArtistDelete => "ArtistDelete",
            Permission::AlbumWrite => "AlbumWrite",
            Permission::AlbumRead => "AlbumRead",
            Permission::AlbumDelete => "AlbumDelete",
            Permission::TrackWrite => "TrackWrite",
            Permission::TrackRead => "TrackRead",
            Permission::TrackDelete => "TrackDelete",
            Permission::AudioWrite => "AudioWrite",
            Permission::AudioRead => "AudioRead",
            Permission::AudioDelete => "AudioDelete",
        }
    }

    /// The canonical name as an owned string.
    pub fn to_string(&self) -> (r: String)
        ensures
            r@ == self.spec_name(),
    {
        self.name().to_owned()
    }

    /// Every permission once, in declaration order.
    pub fn all() -> (r: Vec<Permission>)
        ensures
            r@ == all_permissions(),
    {
        let mut v: Vec<Permission> = Vec::new();
        v.push(Permission::DocsRead);
        v.push(Permission::InviteWrite);
        v.push(Permission::InviteRead);
        v.push(Permission::InviteDelete);
        v.push(Permission::UserRead);
        v.push(Permission::UserDelete);
        v.push(Permission::PermissionAdd);
        v.push(Permission::PermissionDelete);
        v.push(Permission::TokenDelete);
        v.push(Permission::GenreWrite);
        v.push(Permission::GenreRead);
        v.push(Permission::GenreDelete);
        v.push(Permission::ArtistWrite);
        v.push(Permission::ArtistRead);
        v.push(Permission::ArtistDelete);
        v.push(Permission::AlbumWrite);
        v.push(Permission::AlbumRead);
        v.push(Permission::AlbumDelete);
        v.push(Permission::TrackWrite);
        v.push(Permission::TrackRead);
        v.push(Permission::TrackDelete);
        v.push(Permission::AudioWrite);
        v.push(Permission::AudioRead);
        v.push(Permission::AudioDelete);
        assert(v@ =~= all_permissions());
        v
    }

    /// Reads a permission from its name. The match is exact but for the case of ASCII
    /// letters; any other text is rejected and handed back in the error.
    pub fn parse(text: &str) -> (r: Result<Permission, UnknownPermission>)
        ensures
            match r {
                Ok(p) => spec_parse(text@) == Some(p),
                Err(e) => spec_parse(text@) is None && e.text@ == text@,
            },
    {
        let chars = chars_of(text);
        match Permission::parse_chars(&chars) {
            Some(p) => Ok(p),
            None => Err(UnknownPermission { text: text.to_owned() }),
        }
    }

    /// Reads a permission from the characters of its name, as [`Permission::parse`] does.
    pub fn parse_chars(text: &Vec<char>) -> (r: Option<Permission>)
        ensures
            r == spec_parse(text@),
    {
        let all = Permission::all();
        let mut i: usize = 0;
        while i < all.len()
            invariant
                all@ == all_permissions(),
                i <= all.len(),
                forall|j: int| 0 <= j < i ==> !names(text@, #[trigger] all@[j]),
            decreases all.len() - i,
        {
            let p = all[i];
            let name = chars_of(p.name());
            if eq_ignoring_case(text, &name) {
                proof {
                    parse_is_exact(text@, p);
                }
                return Some(p);
            }
            i += 1;
        }
        proof {
            assert forall|p: Permission| !names(text@, p) by {
                all_is_complete(p);
            }
        }
        None
    }
}

/// Every permission stands in [`all_permissions`], at its own index, and nowhere else.
pub proof fn all_is_complete(p: Permission)
    ensures
        0 <= p.spec_index() < all_permissions().len(),
        all_permissions()[p.spec_index()] == p,
        forall|i: int| 0 <= i < all_permissions().len() && all_permissions()[i] == p ==> i == p.spec_index(),
{
}

/// [`all_permissions`] leaves no permission out and lists none twice.
pub proof fn all_is_everything()
    ensures
        all_permissions().to_set() == Set::<Permission>::full(),
        all_permissions().no_duplicates(),
{
    assert forall|i: int, j: int|
        0 <= i < all_permissions().len() && 0 <= j < all_permissions().len() && i != j implies all_permissions()[i]
        != all_permissions()[j] by {
        all_is_complete(all_permissions()[i]);
    }
    assert forall|p: Permission| all_permissions().to_set().contains(p) by {
        all_is_complete(p);
        assert(all_permissions()[p.spec_index()] == p);
    }
    assert(all_permissions().to_set() =~= Set::<Permission>::full());
}

/// No two permissions share a name, even when the case of letters is ignored.
pub proof fn names_are_distinct(p: Permission, q: Permission)
    requires
        same_ignoring_case(p.spec_name(), q.spec_name()),
    ensures
        p == q,
{
    p.fingerprint_of_name();
    q.fingerprint_of_name();
    let a = p.spec_name();
    let b = q.spec_name();
    assert(fold(a[0]) == fold(b[0]));
    assert(fold(a[1]) == fold(b[1]));
}

/// A text names at most one permission, and [`spec_parse`] finds exactly that one.
pub proof fn parse_is_exact(text: Seq<char>, p: Permission)
    ensures
        spec_parse(text) == Some(p) <==> names(text, p),
{
    if names(text, p) {
        let q = choose|q: Permission| names(text, q);
        assert(names(text, q));
        assert forall|i: int| 0 <= i < p.spec_name().len() implies fold(#[trigger] p.spec_name()[i]) == fold(
            q.spec_name()[i],
        ) by {
            assert(fold(text[i]) == fold(p.spec_name()[i]));
            assert(fold(text[i]) == fold(q.spec_name()[i]));
        }
        names_are_distinct(p, q);
    }
}

/// Reading the canonical name of a permission gives that permission back.
pub proof fn parse_of_name(p: Permission)
    ensures
        spec_parse(p.spec_name()) == Some(p),
{
    assert(names(p.spec_name(), p));
    parse_is_exact(p.spec_name(), p);
}

/// Reads a stored permission set: a comma-separated list of names, or no value at
/// all for the empty set. The read is lenient: a piece that names no permission is
/// dropped, and the others keep their order.
pub fn permissions_from_row(column: &Option<String>) -> (r: Vec<Permission>)
    ensures
        r@ == stored_permissions(
            match column {
                Some(text) => Some(text@),
                None => None,
            },
        ),
{
    match column {
        Some(text) => parse_list(text.as_str()),
        None => Vec::new(),
    }
}

/// Reads a comma-separated list of permission names, dropping what names none.
pub fn parse_list(text: &str) -> (r: Vec<Permission>)
    ensures
        r@ == recognized(split(text@, ',')),
{
    let chars = chars_of(text);
    let mut out: Vec<Permission> = Vec::new();
    let mut piece: Vec<char> = Vec::new();
    let ghost mut done: Seq<Seq<char>> = Seq::empty();
    let mut i: usize = 0;
    proof {
        recognized_after_push(done, piece@);
    }
    while i < chars.len()
        invariant
            i <= chars.len(),
            split(chars@.take(i as int), ',') == done.push(piece@),
            out@ == recognized(done),
        decreases chars.len() - i,
    {
        let c = chars[i];
        proof {
            assert(chars@.take(i + 1).drop_last() =~= chars@.take(i as int));
            assert(done.push(piece@).drop_last() =~= done);
            recognized_after_push(done, piece@);
        }
        if c == ',' {
            match Permission::parse_chars(&piece) {
                Some(p) => out.push(p),
                None => {},
            }
            proof {
                done = done.push(piece@);
            }
            piece = Vec::new();
        } else {
            piece.push(c);
        }
        i += 1;
    }
    match Permission::parse_chars(&piece) {
        Some(p) => out.push(p),
        None => {},
    }
    proof {
        assert(chars@.take(chars.len() as int) =~= chars@);
        recognized_after_push(done, piece@);
    }
    out
}

/// Reads the permission names of a request. The read is strict: the first text that
/// names no permission fails the whole list and is handed back in the error.
pub fn parse_names(names: &Vec<String>) -> (r: Result<Vec<Permission>, UnknownPermission>)
    ensures
        match r {
            Ok(found) => {
                &&& found@.len() == names@.len()
                &&& forall|i: int| 0 <= i < names@.len() ==> spec_parse(names@[i]@) == Some(#[trigger] found@[i])
            },
            Err(e) => exists|at: int|
                {
                    &&& 0 <= at < names@.len()
                    &&& spec_parse(#[trigger] names@[at]@) is None
                    &&& e.text@ == names@[at]@
                    &&& forall|j: int| 0 <= j < at ==> spec_parse(#[trigger] names@[j]@) is Some
                },
        },
{
    let mut found: Vec<Permission> = Vec::new();
    let mut i: usize = 0;
    while i < names.len()
        invariant
            i <= names.len(),
            found@.len() == i,
            forall|j: int| 0 <= j < i ==> spec_parse(names@[j]@) == Some(#[trigger] found@[j]),
        decreases names.len() - i,
    {
        match Permission::parse(names[i].as_str()) {
            Ok(p) => found.push(p),
            Err(e) => {
                proof {
                    assert(spec_parse(names@[i as int]@) is None);
                    assert forall|j: int| 0 <= j < i implies spec_parse(#[trigger] names@[j]@) is Some by {
                        assert(spec_parse(names@[j]@) == Some(found@[j]));
                    }
                }
                return Err(e);
            },
        }
        i += 1;
    }
    Ok(found)
}

/// The canonical names of `permissions` with `sep` between them.
pub fn joined_names(permissions: &Vec<Permission>, sep: &str) -> (r: String)
    ensures
        r@ == join(names_of(permissions@), sep@),
{
    let mut out = String::new();
    let mut i: usize = 0;
    while i < permissions.len()
        invariant
            i <= permissions.len(),
            out@ == join(names_of(permissions@.take(i as int)), sep@),
        decreases permissions.len() - i,
    {
        proof {
            let now = names_of(permissions@.take(i + 1));
            assert(now.drop_last() =~= names_of(permissions@.take(i as int)));
            assert(now.last() == permissions@[i as int].spec_name());
            if i == 0 {
                assert(out@ + now.last() =~= now.last());
            }
        }
        if i > 0 {
            out.append(sep);
        }
        out.append(permissions[i].name());
        i += 1;
    }
    proof {
        assert(permissions@.take(permissions.len() as int) =~= permissions@);
    }
    out
}

/// The stored form of a permission set: the canonical names in order, joined by
/// commas. Reading it gives the same permissions back.
pub fn stored_form(permissions: &Vec<Permission>) -> (r: String)
    ensures
        r@ == join(names_of(permissions@), seq![',']),
        stored_permissions(Some(r@)) == permissions@,
{
    proof {
        reveal_strlit(",");
        assert(","@ =~= seq![',']);
        stored_form_reads_back(permissions@);
    }
    joined_names(permissions, ",")
}

/// No canonical name holds a comma.
pub proof fn names_hold_no_comma(p: Permission)
    ensures
        !p.spec_name().contains(','),
{
    reveal_strlit("DocsRead");
    reveal_strlit("InviteWrite");
    reveal_strlit("InviteRead");
    reveal_strlit("InviteDelete");
    reveal_strlit("UserRead");
    reveal_strlit("UserDelete");
    reveal_strlit("PermissionAdd");
    reveal_strlit("PermissionDelete");
    reveal_strlit("TokenDelete");
    reveal_strlit("GenreWrite");
    reveal_strlit("GenreRead");
    reveal_strlit("GenreDelete");
    reveal_strlit("ArtistWrite");
    reveal_strlit("ArtistRead");
    reveal_strlit("ArtistDelete");
    reveal_strlit("AlbumWrite");
    reveal_strlit("AlbumRead");
    reveal_strlit("AlbumDelete");
    reveal_strlit("TrackWrite");
    reveal_strlit("TrackRead");
    reveal_strlit("TrackDelete");
    reveal_strlit("AudioWrite");
    reveal_strlit("AudioRead");
    reveal_strlit("AudioDelete");
    let name = p.spec_name();
    assert forall|i: int| 0 <= i < name.len() implies name[i] != ',' by {
        assert(0 <= i < 16);
    }
}

/// The permissions behind a list of their own names are those permissions.
pub proof fn names_are_recognized(permissions: Seq<Permission>)
    ensures
        recognized(names_of(permissions)) == permissions,
    decreases permissions.len(),
{
    if permissions.len() == 0 {
        assert(names_of(permissions) =~= Seq::<Seq<char>>::empty());
        recognized_after_push(Seq::empty(), Seq::empty());
        assert(permissions =~= Seq::<Permission>::empty());
    } else {
        let texts = names_of(permissions);
        let earlier = permissions.drop_last();
        assert(texts =~= names_of(earlier).push(permissions.last().spec_name()));
        names_are_recognized(earlier);
        parse_of_name(permissions.last());
        recognized_after_push(names_of(earlier), permissions.last().spec_name());
        assert(earlier.push(permissions.last()) =~= permissions);
    }
}

/// A permission set that is stored and read again is the same list.
pub proof fn stored_form_reads_back(permissions: Seq<Permission>)
    ensures
        recognized(split(join(names_of(permissions), seq![',']), ',')) == permissions,
{
    let texts = names_of(permissions);
    if permissions.len() == 0 {
        let nothing = Seq::<char>::empty();
        assert(join(texts, seq![',']) =~= nothing);
        assert(split(nothing, ',') =~= seq![nothing]);
        assert(seq![nothing].drop_last() =~= Seq::<Seq<char>>::empty());
        assert forall|p: Permission| !names(nothing, p) by {
            p.fingerprint_of_name();
        }
        assert(spec_parse(nothing) is None);
        recognized_after_push(Seq::empty(), nothing);
        assert(Seq::<Seq<char>>::empty().push(nothing) =~= seq![nothing]);
    } else {
        assert forall|k: int| 0 <= k < texts.len() implies !(#[trigger] texts[k]).contains(',') by {
            names_hold_no_comma(permissions[k]);
        }
        join_then_split(texts, ',');
        names_are_recognized(permissions);
    }
}

} // verus!
