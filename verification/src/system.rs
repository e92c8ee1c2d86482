//! The one-line device context sent with a question.
use vstd::prelude::*;

use crate::text::{
    append_str, split_on, split_str, starts_with, starts_with_str, string_views, trim_end_char,
    trim_end_matches_char,
};

verus! {

broadcast use vstd::string::group_string_axioms;

/// The `i`-th line of `content` split at `\n`: a `\r` before a `\n` belongs
/// to the line break, as `str::lines` has it.
pub open spec fn line_at(pieces: Seq<Seq<char>>, i: int) -> Seq<char> {
    if i + 1 < pieces.len() && pieces[i].len() > 0 && pieces[i].last() == '\r' {
        pieces[i].drop_last()
    } else {
        pieces[i]
    }
}

/// The first line from `i` on that starts with `NAME="`.
pub open spec fn first_name_line(pieces: Seq<Seq<char>>, i: int) -> Option<Seq<char>>
    decreases pieces.len() - i,
{
    if i < 0 || i >= pieces.len() {
        None
    } else if starts_with(line_at(pieces, i), "NAME=\""@) {
        Some(line_at(pieces, i))
    } else {
        first_name_line(pieces, i + 1)
    }
}

/// The distribution name from `/etc/os-release`: the value of the first
/// `NAME="…"` line, without its closing quotes.
pub open spec fn os_release_name_spec(content: Seq<char>) -> Option<Seq<char>> {
    match first_name_line(split_on(content, '\n'), 0) {
        Some(line) => Some(trim_end_char(line.skip(6), '"')),
        None => None,
    }
}

/// Reads the distribution name from the contents of `/etc/os-release`.
pub fn os_release_name(content: &str) -> (r: Option<String>)
    ensures
        match r {
            Some(n) => os_release_name_spec(content@) == Some(n@),
            None => os_release_name_spec(content@) is None,
        },
{
    let pieces = split_str(content, '\n');
    let ghost views = string_views(pieces@);
    assert(views == split_on(content@, '\n'));
    let n = pieces.len();
    let mut i: usize = 0;
    while i < n
        invariant
            n == pieces@.len(),
            views == string_views(pieces@),
            views == split_on(content@, '\n'),
            i <= n,
            first_name_line(views, 0) == first_name_line(views, i as int),
        decreases n - i,
    {
        let piece = pieces[i].as_str();
        let len = piece.unicode_len();
        let line: &str = if i + 1 < n && len > 0 && crate::text::chars_of(piece)[len - 1] == '\r' {
            piece.substring_char(0, len - 1)
        } else {
            piece
        };
        proof {
            assert(views[i as int] == piece@);
            if i + 1 < n && len > 0 && piece@.last() == '\r' {
                assert(piece@.subrange(0, len - 1) =~= piece@.drop_last());
            }
            assert(line@ == line_at(views, i as int));
        }
        if starts_with_str(line, "NAME=\"") {
            proof {
                reveal_strlit("NAME=\"");
            }
            let rest = line.substring_char(6, line.unicode_len());
            assert(rest@ =~= line@.skip(6));
            return Some(trim_end_matches_char(rest, '"').to_owned());
        }
        i = i + 1;
    }
    None
}

/// The device context: the distribution name, `pkg:` and the package
/// manager, `shell:` and the login shell, each where known, joined by ` | `.
pub open spec fn context_parts(
    name: Option<Seq<char>>,
    manager: Option<Seq<char>>,
    shell: Option<Seq<char>>,
) -> Seq<Seq<char>> {
    let a: Seq<Seq<char>> = match name {
        Some(n) => seq![n],
        None => Seq::empty(),
    };
    let b: Seq<Seq<char>> = match manager {
        Some(m) => a.push("pkg:"@ + m),
        None => a,
    };
    match shell {
        Some(s) => if s.len() > 0 {
            b.push("shell:"@ + s)
        } else {
            b
        },
        None => b,
    }
}

/// `parts` joined by `sep`.
pub open spec fn joined(parts: Seq<Seq<char>>, sep: Seq<char>) -> Seq<char>
    decreases parts.len(),
{
    if parts.len() == 0 {
        Seq::empty()
    } else if parts.len() == 1 {
        parts[0]
    } else {
        joined(parts.drop_last(), sep) + sep + parts.last()
    }
}

fn push_part(parts: &mut Vec<String>, joined_so_far: &mut String, part: String)
    ensures
        string_views(final(parts)@) == string_views(old(parts)@).push(part@),
        (old(joined_so_far)@ == joined(string_views(old(parts)@), " | "@)) ==> (final(
            joined_so_far)@ == joined(string_views(final(parts)@), " | "@)),
{
    let ghost before = string_views(parts@);
    if parts.len() > 0 {
        append_str(joined_so_far, " | ");
    }
    append_str(joined_so_far, part.as_str());
    parts.push(part);
    proof {
        let after = string_views(parts@);
        assert(after =~= before.push(part@));
        assert(after.drop_last() =~= before);
        if before.len() == 0 {
            assert(joined(before, " | "@) =~= Seq::<char>::empty());
        }
    }
}

/// The device context line sent with a question.
pub fn system_context_line(name: Option<String>, manager: Option<&str>, shell: Option<&str>) -> (r:
    String)
    ensures
        r@ == joined(
            context_parts(
                match name {
                    Some(n) => Some(n@),
                    None => None,
                },
                match manager {
                    Some(m) => Some(m@),
                    None => None,
                },
                match shell {
                    Some(s) => Some(s@),
                    None => None,
                },
            ),
            " | "@,
        ),
{
    let mut parts: Vec<String> = Vec::new();
    let mut out = String::new();
    assert(string_views(parts@) =~= Seq::<Seq<char>>::empty());
    let ghost name_view: Option<Seq<char>> = match &name {
        Some(n) => Some(n@),
        None => None,
    };
    if let Some(n) = name {
        push_part(&mut parts, &mut out, n);
    }
    if let Some(m) = manager {
        let mut p = String::from_str("pkg:");
        append_str(&mut p, m);
        push_part(&mut parts, &mut out, p);
    }
    if let Some(s) = shell {
        if s.unicode_len() > 0 {
            let mut p = String::from_str("shell:");
            append_str(&mut p, s);
            push_part(&mut parts, &mut out, p);
        }
    }
    proof {
        let a: Seq<Seq<char>> = match name_view {
            Some(n) => seq![n],
            None => Seq::empty(),
        };
        assert(string_views(parts@) =~= context_parts(
            name_view,
            match manager {
                Some(m) => Some(m@),
                None => None,
            },
            match shell {
                Some(s) => Some(s@),
                None => None,
            },
        ));
    }
    out
}

/// How many package managers the device context looks for.
pub const PACKAGE_MANAGER_COUNT: usize = 7;

/// The package managers looked for, in order of preference.
pub open spec fn package_manager_spec(i: int) -> Seq<char> {
    if i == 0 {
        "pacman"@
    } else if i == 1 {
        "apt-get"@
    } else if i == 2 {
        "dnf"@
    } else if i == 3 {
        "zypper"@
    } else if i == 4 {
        "apk"@
    } else if i == 5 {
        "xbps-install"@
    } else {
        "emerge"@
    }
}

/// The `i`-th package manager looked for.
pub fn package_manager(i: usize) -> (r: &'static str)
    requires
        i < PACKAGE_MANAGER_COUNT,
    ensures
        r@ == package_manager_spec(i as int),
{
    if i == 0 {
        "pacman"
    } else if i == 1 {
        "apt-get"
    } else if i == 2 {
        "dnf"
    } else if i == 3 {
        "zypper"
    } else if i == 4 {
        "apk"
    } else if i == 5 {
        "xbps-install"
    } else {
        "emerge"
    }
}

/// The preferred package manager among those found: `found[i]` tells whether
/// the `i`-th one is an executable on the search path.
pub fn preferred_package_manager(found: &[bool]) -> (r: Option<&'static str>)
    requires
        found@.len() == PACKAGE_MANAGER_COUNT,
    ensures
        match r {
            Some(m) => exists|i: int|
                0 <= i < PACKAGE_MANAGER_COUNT && found@[i] && m@ == package_manager_spec(i)
                    && forall|j: int| 0 <= j < i ==> !found@[j],
            None => forall|i: int| 0 <= i < PACKAGE_MANAGER_COUNT ==> !found@[i],
        },
{
    let mut i: usize = 0;
    while i < PACKAGE_MANAGER_COUNT
        invariant
            found@.len() == PACKAGE_MANAGER_COUNT,
            i <= PACKAGE_MANAGER_COUNT,
            forall|j: int| 0 <= j < i ==> !found@[j],
        decreases PACKAGE_MANAGER_COUNT - i,
    {
        if found[i] {
            let m = package_manager(i);
            assert(found@[i as int] && m@ == package_manager_spec(i as int));
            return Some(m);
        }
        i = i + 1;
    }
    None
}

/// The context line puts what is known in a fixed order, each part once:
/// the distribution name first whenever it is known, then `pkg:` and the
/// package manager, then `shell:` and a non-empty shell, separated by ` | `;
/// with nothing known it is empty.
pub proof fn context_line_order(
    name: Option<Seq<char>>,
    manager: Option<Seq<char>>,
    shell: Option<Seq<char>>,
)
    ensures
        ({
            let line = joined(context_parts(name, manager, shell), " | "@);
            let has_shell = shell is Some && shell->Some_0.len() > 0;
            let pkg = "pkg:"@ + manager->Some_0;
            let sh = "shell:"@ + shell->Some_0;
            &&& name is Some ==> starts_with(line, name->Some_0)
            &&& name is Some && manager is Some ==> starts_with(
                line,
                name->Some_0 + " | "@ + pkg,
            )
            &&& name is None && manager is Some ==> starts_with(line, pkg)
            &&& has_shell ==> line.len() >= sh.len() && line.skip(line.len() - sh.len()) == sh
            &&& name is Some && manager is None && !has_shell ==> line == name->Some_0
            &&& name is Some && manager is None && has_shell ==> line == name->Some_0 + " | "@
                + sh
            &&& name is None && manager is None && has_shell ==> line == sh
            &&& name is None && manager is None && !has_shell ==> line.len() == 0
        }),
{
    let parts = context_parts(name, manager, shell);
    let sep = " | "@;
    let has_shell = shell is Some && shell->Some_0.len() > 0;
    if parts.len() >= 1 {
        assert(joined(parts.take(1), sep) == parts[0]);
    }
    let line = joined(parts, sep);
    match name {
        Some(n) => {
            match manager {
                Some(m) => {
                    let pkg = "pkg:"@ + m;
                    assert(joined(seq![n], sep) == n);
                    assert(seq![n, pkg].drop_last() =~= seq![n]);
                    assert(joined(seq![n, pkg], sep) == n + sep + pkg);
                    if has_shell {
                        let sh = "shell:"@ + shell->Some_0;
                        assert(parts =~= seq![n, pkg, sh]);
                        assert(parts.drop_last() =~= seq![n, pkg]);
                        assert(line == n + sep + pkg + sep + sh);
                        assert(line.take((n + sep + pkg).len() as int) =~= n + sep + pkg);
                        assert(line.take(n.len() as int) =~= n);
                        assert(line.skip(line.len() - sh.len()) =~= sh);
                    } else {
                        assert(parts =~= seq![n, pkg]);
                        assert(line.take(n.len() as int) =~= n);
                        assert(line.take((n + sep + pkg).len() as int) =~= line);
                    }
                },
                None => {
                    if has_shell {
                        let sh = "shell:"@ + shell->Some_0;
                        assert(parts =~= seq![n, sh]);
                        assert(parts.drop_last() =~= seq![n]);
                        assert(joined(seq![n], sep) == n);
                        assert(line == n + sep + sh);
                        assert(line.take(n.len() as int) =~= n);
                        assert(line.skip(line.len() - sh.len()) =~= sh);
                    } else {
                        assert(parts =~= seq![n]);
                        assert(line.take(n.len() as int) =~= n);
                    }
                },
            }
        },
        None => {
            match manager {
                Some(m) => {
                    let pkg = "pkg:"@ + m;
                    if has_shell {
                        let sh = "shell:"@ + shell->Some_0;
                        assert(parts =~= seq![pkg, sh]);
                        assert(parts.drop_last() =~= seq![pkg]);
                        assert(joined(seq![pkg], sep) == pkg);
                        assert(line == pkg + sep + sh);
                        assert(line.take(pkg.len() as int) =~= pkg);
                        assert(line.skip(line.len() - sh.len()) =~= sh);
                    } else {
                        assert(parts =~= seq![pkg]);
                        assert(line.take(pkg.len() as int) =~= pkg);
                    }
                },
                None => {
                    if has_shell {
                        let sh = "shell:"@ + shell->Some_0;
                        assert(parts =~= seq![sh]);
                        assert(line.skip(0) =~= sh);
                    } else {
                        assert(parts =~= Seq::<Seq<char>>::empty());
                    }
                },
            }
        },
    }
}

} // verus!
