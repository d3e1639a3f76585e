//! On-disk locations of SquelchBox's state, below its data directory.
//!
//! The data directory itself is resolved by the platform layer; these
//! functions name the files and folders inside it.

use vstd::prelude::*;
use vstd::string::StringExecFns;

verus! {

/// `base` begins with the Windows verbatim prefix `\\?\`.
pub open spec fn verbatim_prefix(base: Seq<char>) -> bool {
    base.len() >= 4 && base[0] == '\\' && base[1] == '\\' && base[2] == '?' && base[3] == '\\'
}

/// `comp` is a relative path with no root and no drive or UNC prefix on
/// any platform: non-empty, not starting with `/` or `\`, and without
/// a `:` in second place.
pub open spec fn plain_relative(comp: Seq<char>) -> bool {
    &&& comp.len() > 0
    &&& comp[0] != '/'
    &&& comp[0] != '\\'
    &&& comp.len() >= 2 ==> comp[1] != ':'
}

/// `r` is `base` with `comp` adjoined: directly, or with one separator
/// (`/`, or `\` where the platform uses it) in between.
pub open spec fn joined(base: Seq<char>, comp: Seq<char>, r: Seq<char>) -> bool {
    ||| r == base + comp
    ||| r == base + seq!['/'] + comp
    ||| r == base + seq!['\\'] + comp
}

/// `base` needs a separator before a joined component: it is non-empty,
/// ends in neither `/` nor `\`, and is not a bare two-character drive
/// such as `C:`.
pub open spec fn needs_separator(base: Seq<char>) -> bool {
    &&& base.len() > 0
    &&& base.last() != '/'
    &&& base.last() != '\\'
    &&& !(base.len() == 2 && base[1] == ':')
}

/// `r` is `base` with `comp` joined on as `Path::join` joins a relative
/// component: appended directly when `base` is empty or ends in `/`;
/// after one separator (`/`, or `\` on Windows) when `base` needs one;
/// otherwise (a base ending in `\`, or a bare drive) with at most one
/// separator in between.
pub open spec fn platform_join(base: Seq<char>, comp: Seq<char>, r: Seq<char>) -> bool {
    &&& joined(base, comp, r)
    &&& (base.len() == 0 || base.last() == '/') ==> r == base + comp
    &&& needs_separator(base) ==> (r == base + seq!['/'] + comp || r == base + seq!['\\'] + comp)
}

/// A joined path lies under its base: it begins with the base, and
/// when the base needs a separator the next character is `/` or `\`,
/// so the component starts a new path element; it ends with the
/// component.
pub proof fn lemma_joined_lies_under(base: Seq<char>, comp: Seq<char>, r: Seq<char>)
    requires
        platform_join(base, comp, r),
    ensures
        r.len() >= base.len() + comp.len(),
        r.subrange(0, base.len() as int) == base,
        r.subrange(r.len() - comp.len(), r.len() as int) == comp,
        needs_separator(base) ==> r.len() == base.len() + 1 + comp.len() && (r[base.len() as int] == '/'
            || r[base.len() as int] == '\\'),
{
    if r == base + comp {
        assert(r.subrange(0, base.len() as int) =~= base);
        assert(r.subrange(r.len() - comp.len(), r.len() as int) =~= comp);
    } else if r == base + seq!['/'] + comp {
        assert(r.subrange(0, base.len() as int) =~= base);
        assert(r.subrange(r.len() - comp.len(), r.len() as int) =~= comp);
    } else {
        assert(r.subrange(0, base.len() as int) =~= base);
        assert(r.subrange(r.len() - comp.len(), r.len() as int) =~= comp);
    }
}

/// `std::path::Path::join` of `base` and `comp`, as text. The standard
/// library documents that joining a relative path appends it to the
/// base, with a separator in between unless the base is empty or
/// already ends in one (`/` on Unix, `/` or `\` on Windows). Which
/// separator is inserted depends on the platform, so the contract
/// leaves that choice open, and it claims no more than "at most one
/// separator" for a base ending in `\` (a separator on Windows only)
/// or a bare Windows drive such as `C:`. On a Windows verbatim base
/// (`\\?\...`) the standard library rewrites the appended component,
/// so nothing is claimed there.
#[verifier::external_body]
fn path_join(base: &str, comp: &str) -> (r: String)
    requires
        plain_relative(comp@),
    ensures
        !verbatim_prefix(base@) ==> platform_join(base@, comp@, r@),
{
    std::path::Path::new(base).join(comp).to_string_lossy().into_owned()
}

/// Where presets live.
pub fn squelchbox_preset_dir(data_dir: &str) -> (p: String)
    ensures
        !verbatim_prefix(data_dir@) ==> platform_join(data_dir@, "presets"@, p@),
{
    proof {
        reveal_strlit("presets");
    }
    path_join(data_dir, "presets")
}

/// Where logs live.
pub fn squelchbox_log_dir(data_dir: &str) -> (p: String)
    ensures
        !verbatim_prefix(data_dir@) ==> platform_join(data_dir@, "logs"@, p@),
{
    proof {
        reveal_strlit("logs");
    }
    path_join(data_dir, "logs")
}

/// The file naming the last preset loaded.
pub fn squelchbox_last_preset_file(data_dir: &str) -> (p: String)
    ensures
        !verbatim_prefix(data_dir@) ==> platform_join(data_dir@, "last_preset.txt"@, p@),
{
    proof {
        reveal_strlit("last_preset.txt");
    }
    path_join(data_dir, "last_preset.txt")
}

/// The file listing hidden presets.
pub fn squelchbox_hidden_presets_file(data_dir: &str) -> (p: String)
    ensures
        !verbatim_prefix(data_dir@) ==> platform_join(data_dir@, "hidden_presets.txt"@, p@),
{
    proof {
        reveal_strlit("hidden_presets.txt");
    }
    path_join(data_dir, "hidden_presets.txt")
}

/// The file holding the persisted UI scale.
pub fn squelchbox_ui_scale_file(data_dir: &str) -> (p: String)
    ensures
        !verbatim_prefix(data_dir@) ==> platform_join(data_dir@, "ui_scale.txt"@, p@),
{
    proof {
        reveal_strlit("ui_scale.txt");
    }
    path_join(data_dir, "ui_scale.txt")
}

/// The data directory used when the platform directories cannot be
/// resolved: `squelchbox` inside the temporary directory.
pub fn fallback_dir(temp_dir: &str) -> (p: String)
    ensures
        !verbatim_prefix(temp_dir@) ==> platform_join(temp_dir@, "squelchbox"@, p@),
{
    proof {
        reveal_strlit("squelchbox");
    }
    path_join(temp_dir, "squelchbox")
}

/// Where MIDI exports go: `$XDG_DATA_HOME/squelchbox/exports`, else
/// `$HOME/.local/share/squelchbox/exports`, else
/// `/tmp/squelchbox/exports`. The arguments are the two environment
/// variables, when set; the component is joined to them as
/// `Path::join` does.
pub fn export_dir(xdg_data_home: Option<&str>, home: Option<&str>) -> (p: String)
    ensures
        match xdg_data_home {
            Some(d) => !verbatim_prefix(d@) ==> platform_join(d@, "squelchbox/exports"@, p@),
            None => match home {
                Some(h) => !verbatim_prefix(h@) ==> platform_join(h@, ".local/share/squelchbox/exports"@, p@),
                None => p@ == "/tmp/squelchbox/exports"@,
            },
        },
{
    proof {
        reveal_strlit("squelchbox/exports");
        reveal_strlit(".local/share/squelchbox/exports");
    }
    match xdg_data_home {
        Some(d) => path_join(d, "squelchbox/exports"),
        None => match home {
            Some(h) => path_join(h, ".local/share/squelchbox/exports"),
            None => String::from_str("/tmp/squelchbox/exports"),
        },
    }
}

} // verus!
