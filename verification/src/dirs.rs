//! Where the engine keeps its data, decided from the environment's values.

use vstd::prelude::*;

verus! {

/// `base` with the relative component `comp` appended, as `Path::join` does
/// on Unix: a separator goes between them unless `base` is empty or already
/// ends with one.
pub open spec fn join_path(base: Seq<char>, comp: Seq<char>) -> Seq<char> {
    if base.len() == 0 || base.last() == '/' {
        base + comp
    } else {
        base + "/"@ + comp
    }
}

/// The home directory, or `/tmp` when `HOME` is not set.
pub open spec fn home_or_tmp(home: Option<Seq<char>>) -> Seq<char> {
    match home {
        Some(h) => h,
        None => "/tmp"@,
    }
}

fn join(base: &str, comp: &str) -> (r: String)
    ensures
        r@ == join_path(base@, comp@),
{
    let n = base.unicode_len();
    if n == 0 || base.get_char(n - 1) == '/' {
        String::from_str(base).concat(comp)
    } else {
        String::from_str(base).concat("/").concat(comp)
    }
}

fn home_dir(home: Option<&str>) -> (r: String)
    ensures
        r@ == home_or_tmp(
            match home {
                Some(h) => Some(h@),
                None => None,
            },
        ),
{
    match home {
        Some(h) => String::from_str(h),
        None => String::from_str("/tmp"),
    }
}

/// The default user data directory: `.config/rsime` under the home directory.
pub fn default_user_data_dir(home: Option<&str>) -> (r: String)
    ensures
        r@ == join_path(
            join_path(
                home_or_tmp(
                    match home {
                        Some(h) => Some(h@),
                        None => None,
                    },
                ),
                ".config"@,
            ),
            "rsime"@,
        ),
{
    let h = home_dir(home);
    let c = join(h.as_str(), ".config");
    join(c.as_str(), "rsime")
}

/// The user data directory: `RIME_USER_DATA_DIR` when it is set, else the default.
pub fn user_data_dir(rime_user_data_dir: Option<&str>, home: Option<&str>) -> (r: String)
    ensures
        match rime_user_data_dir {
            Some(d) => r@ == d@,
            None => r@ == join_path(
                join_path(
                    home_or_tmp(
                        match home {
                            Some(h) => Some(h@),
                            None => None,
                        },
                    ),
                    ".config"@,
                ),
                "rsime"@,
            ),
        },
{
    match rime_user_data_dir {
        Some(d) => String::from_str(d),
        None => default_user_data_dir(home),
    }
}

/// The directory that the schema installer keeps itself in:
/// `.config/rsime-plum` under the home directory.
pub fn plum_dir(home: Option<&str>) -> (r: String)
    ensures
        r@ == join_path(
            join_path(
                home_or_tmp(
                    match home {
                        Some(h) => Some(h@),
                        None => None,
                    },
                ),
                ".config"@,
            ),
            "rsime-plum"@,
        ),
{
    let h = home_dir(home);
    let c = join(h.as_str(), ".config");
    join(c.as_str(), "rsime-plum")
}

/// Where the directories lie: under a home directory `h`, the data
/// directory is `h/.config/rsime` and the installer's is
/// `h/.config/rsime-plum`, with one `/` after `h` whether or not it already
/// ends with one; without a home directory, `/tmp` stands for it.
pub proof fn law_directories_under_home(h: Seq<char>)
    ensures
        h.len() > 0 && h.last() != '/' ==> join_path(join_path(h, ".config"@), "rsime"@) == h
            + "/.config/rsime"@,
        h.len() > 0 && h.last() != '/' ==> join_path(join_path(h, ".config"@), "rsime-plum"@)
            == h + "/.config/rsime-plum"@,
        h.len() > 0 && h.last() == '/' ==> join_path(join_path(h, ".config"@), "rsime"@) == h
            + ".config/rsime"@,
        join_path(join_path(home_or_tmp(None), ".config"@), "rsime"@) == "/tmp/.config/rsime"@,
        join_path(join_path(home_or_tmp(None), ".config"@), "rsime-plum"@)
            == "/tmp/.config/rsime-plum"@,
{
    reveal_strlit("/");
    reveal_strlit(".config");
    reveal_strlit("rsime");
    reveal_strlit("rsime-plum");
    reveal_strlit("/.config/rsime");
    reveal_strlit("/.config/rsime-plum");
    reveal_strlit(".config/rsime");
    reveal_strlit("/tmp");
    reveal_strlit("/tmp/.config/rsime");
    reveal_strlit("/tmp/.config/rsime-plum");
    let c = ".config"@;
    if h.len() > 0 {
        assert((h + "/"@ + c).last() == 'g');
        assert((h + c).last() == 'g');
        assert(h + "/"@ + c + "/"@ + "rsime"@ =~= h + "/.config/rsime"@);
        assert(h + "/"@ + c + "/"@ + "rsime-plum"@ =~= h + "/.config/rsime-plum"@);
        assert(h + c + "/"@ + "rsime"@ =~= h + ".config/rsime"@);
    }
    let t = "/tmp"@;
    assert(t.last() == 'p');
    assert((t + "/"@ + c).last() == 'g');
    assert(t + "/"@ + c + "/"@ + "rsime"@ =~= "/tmp/.config/rsime"@);
    assert(t + "/"@ + c + "/"@ + "rsime-plum"@ =~= "/tmp/.config/rsime-plum"@);
}

} // verus!
