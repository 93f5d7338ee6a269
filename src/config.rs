//! The room's configuration file: lines of `key = value`, blank lines and
//! `#` comments, with the keys room, teacher, sign_key and
//! authorised_students (a comma-separated list).

use vstd::prelude::*;
use crate::text::{
    chars_of, lemma_filter_take_step, lemma_sep_offset, piece_ranges, range_texts, sep_offset,
    split, trim, trim_bounds,
};

verus! {

/// The settings of a room.
#[derive(Debug)]
pub struct RoomConfig {
    pub room: String,
    pub teacher: String,
    pub authorised_students: Vec<String>,
    pub sign_key: String,
}

/// A room's settings, for the contracts.
pub struct RoomConfigView {
    pub room: Seq<char>,
    pub teacher: Seq<char>,
    pub authorised_students: Seq<Seq<char>>,
    pub sign_key: Seq<char>,
}

/// The texts of a list of strings.
pub open spec fn texts(v: Seq<String>) -> Seq<Seq<char>> {
    v.map_values(|s: String| s@)
}

impl View for RoomConfig {
    type V = RoomConfigView;

    open spec fn view(&self) -> RoomConfigView {
        RoomConfigView {
            room: self.room@,
            teacher: self.teacher@,
            authorised_students: texts(self.authorised_students@),
            sign_key: self.sign_key@,
        }
    }
}

/// Why a configuration text was refused. Lines are counted from one.
#[derive(Debug)]
pub enum ConfigError {
    /// A line that is neither blank, nor a comment, nor holds an `=`.
    BadLine { line: usize, text: String },
    /// A key that is not one of the four.
    UnknownKey { key: String, line: usize },
    MissingRoom,
    MissingTeacher,
    MissingSignKey,
}

/// Why a configuration text was refused, for the contracts.
pub enum ConfigErrorView {
    BadLine { line: nat, text: Seq<char> },
    UnknownKey { key: Seq<char>, line: nat },
    MissingRoom,
    MissingTeacher,
    MissingSignKey,
}

impl View for ConfigError {
    type V = ConfigErrorView;

    open spec fn view(&self) -> ConfigErrorView {
        match self {
            ConfigError::BadLine { line, text } => ConfigErrorView::BadLine {
                line: *line as nat,
                text: text@,
            },
            ConfigError::UnknownKey { key, line } => ConfigErrorView::UnknownKey {
                key: key@,
                line: *line as nat,
            },
            ConfigError::MissingRoom => ConfigErrorView::MissingRoom,
            ConfigError::MissingTeacher => ConfigErrorView::MissingTeacher,
            ConfigError::MissingSignKey => ConfigErrorView::MissingSignKey,
        }
    }
}

/// The lines of `s`: cut at each '\n', with the '\r' of a "\r\n" ending
/// dropped, and no empty line after a final '\n'.
pub open spec fn lines(s: Seq<char>) -> Seq<Seq<char>> {
    let p = split(s, '\n');
    let kept = if p.last().len() == 0 {
        p.drop_last()
    } else {
        p
    };
    kept.map(
        |i: int, l: Seq<char>|
            if i + 1 < p.len() && l.len() > 0 && l.last() == '\r' {
                l.drop_last()
            } else {
                l
            },
    )
}

/// The names of a student list: cut at each ',', trimmed, empty ones left
/// out.
pub open spec fn student_list(val: Seq<char>) -> Seq<Seq<char>> {
    split(val, ',').map_values(|p: Seq<char>| trim(p)).filter(|p: Seq<char>| p.len() > 0)
}

/// The settings read so far.
pub struct Settings {
    pub room: Option<Seq<char>>,
    pub teacher: Option<Seq<char>>,
    pub sign_key: Option<Seq<char>>,
    pub students: Option<Seq<Seq<char>>>,
}

/// What line number `number` does to the settings read before it. A later
/// line with the same key wins.
pub open spec fn apply_line(st: Settings, line: Seq<char>, number: nat) -> Result<
    Settings,
    ConfigErrorView,
> {
    let t = trim(line);
    if t.len() == 0 || t[0] == '#' {
        Ok(st)
    } else {
        let pos = sep_offset(t, 0, '=') as int;
        if pos >= t.len() {
            Err(ConfigErrorView::BadLine { line: number, text: line })
        } else {
            let key = trim(t.subrange(0, pos));
            let val = trim(t.subrange(pos + 1, t.len() as int));
            if key == "room"@ {
                Ok(Settings { room: Some(val), ..st })
            } else if key == "teacher"@ {
                Ok(Settings { teacher: Some(val), ..st })
            } else if key == "sign_key"@ {
                Ok(Settings { sign_key: Some(val), ..st })
            } else if key == "authorised_students"@ {
                Ok(Settings { students: Some(student_list(val)), ..st })
            } else {
                Err(ConfigErrorView::UnknownKey { key, line: number })
            }
        }
    }
}

/// The settings that the first `n` lines give, or the first error among
/// them.
pub open spec fn settings_of(ls: Seq<Seq<char>>, n: nat) -> Result<Settings, ConfigErrorView>
    decreases n,
{
    if n == 0 {
        Ok(Settings { room: None, teacher: None, sign_key: None, students: None })
    } else {
        match settings_of(ls, (n - 1) as nat) {
            Err(e) => Err(e),
            Ok(st) => apply_line(st, ls[n - 1], n),
        }
    }
}

/// The configuration that a text describes: every line read in order, then
/// room, teacher and sign_key required, in that order; the student list is
/// empty when absent.
pub open spec fn config_of(text: Seq<char>) -> Result<RoomConfigView, ConfigErrorView> {
    let ls = lines(text);
    match settings_of(ls, ls.len()) {
        Err(e) => Err(e),
        Ok(st) => if st.room is None {
            Err(ConfigErrorView::MissingRoom)
        } else if st.teacher is None {
            Err(ConfigErrorView::MissingTeacher)
        } else if st.sign_key is None {
            Err(ConfigErrorView::MissingSignKey)
        } else {
            Ok(
                RoomConfigView {
                    room: st.room->0,
                    teacher: st.teacher->0,
                    authorised_students: match st.students {
                        Some(v) => v,
                        None => Seq::empty(),
                    },
                    sign_key: st.sign_key->0,
                },
            )
        },
    }
}

/// The text of `cs[from..to]`, taken from `s`, whose characters `cs` are.
fn text_of(s: &str, cs: &Vec<char>, from: usize, to: usize) -> (r: String)
    requires
        cs@ == s@,
        from <= to <= cs@.len(),
    ensures
        r@ == cs@.subrange(from as int, to as int),
{
    String::from_str(s.substring_char(from, to))
}

/// The names of the student list `s[from..to]`.
fn students_of(s: &str, cs: &Vec<char>, from: usize, to: usize) -> (r: Vec<String>)
    requires
        cs@ == s@,
        from <= to <= cs@.len(),
    ensures
        texts(r@) == student_list(cs@.subrange(from as int, to as int)),
{
    let val = s.substring_char(from, to);
    let vs = chars_of(val);
    let ranges = piece_ranges(&vs, ',');
    let ghost pieces = split(vs@, ',').map_values(|p: Seq<char>| trim(p));
    let ghost keep = |p: Seq<char>| p.len() > 0;
    let mut out: Vec<String> = Vec::new();
    let mut i: usize = 0;
    while i < ranges.len()
        invariant
            i <= ranges@.len(),
            vs@ == val@,
            range_texts(vs@, ranges@) == split(vs@, ','),
            forall|k: int| 0 <= k < ranges@.len() ==> (#[trigger] ranges@[k]).0 <= ranges@[k].1 <= vs@.len(),
            pieces == split(vs@, ',').map_values(|p: Seq<char>| trim(p)),
            keep == (|p: Seq<char>| p.len() > 0),
            texts(out@) == pieces.take(i as int).filter(keep),
        decreases ranges.len() - i,
    {
        let (a, b) = ranges[i];
        let (ta, tb) = trim_bounds(&vs, a, b);
        proof {
            lemma_filter_take_step(pieces, keep, i as int);
            assert(pieces[i as int] == trim(vs@.subrange(a as int, b as int)));
        }
        if ta < tb {
            out.push(text_of(val, &vs, ta, tb));
        }
        proof {
            assert(texts(out@) =~= pieces.take(i + 1).filter(keep));
        }
        i = i + 1;
    }
    proof {
        assert(pieces.take(i as int) =~= pieces);
    }
    out
}

/// The settings read so far, as values.
struct Fields {
    room: Option<String>,
    teacher: Option<String>,
    sign_key: Option<String>,
    students: Option<Vec<String>>,
}

spec fn text_opt(o: Option<String>) -> Option<Seq<char>> {
    match o {
        Some(s) => Some(s@),
        None => None,
    }
}

spec fn fields_view(f: Fields) -> Settings {
    Settings {
        room: text_opt(f.room),
        teacher: text_opt(f.teacher),
        sign_key: text_opt(f.sign_key),
        students: match f.students {
            Some(v) => Some(texts(v@)),
            None => None,
        },
    }
}

/// Once a line is refused, the lines after it change nothing.
proof fn lemma_error_stays(ls: Seq<Seq<char>>, k: nat, n: nat)
    requires
        k <= n,
        settings_of(ls, k) is Err,
    ensures
        settings_of(ls, n) == settings_of(ls, k),
    decreases n - k,
{
    if k < n {
        lemma_error_stays(ls, k, (n - 1) as nat);
    }
}

/// Reads the line `s[a..b]`, line number `number`, into `f`.
fn read_line(f: &mut Fields, s: &str, cs: &Vec<char>, a: usize, b: usize, number: usize) -> (r:
    Result<(), ConfigError>)
    requires
        cs@ == s@,
        a <= b <= cs@.len(),
    ensures
        match r {
            Ok(()) => apply_line(fields_view(*old(f)), cs@.subrange(a as int, b as int), number as nat)
                == Ok::<Settings, ConfigErrorView>(fields_view(*final(f))),
            Err(e) => apply_line(fields_view(*old(f)), cs@.subrange(a as int, b as int), number as nat)
                == Err::<Settings, ConfigErrorView>(e@),
        },
{
    let ghost line = cs@.subrange(a as int, b as int);
    let (ta, tb) = trim_bounds(cs, a, b);
    let ghost t = trim(line);
    if ta == tb || cs[ta] == '#' {
        return Ok(());
    }
    let mut j = ta;
    while j < tb && cs[j] != '='
        invariant
            ta <= j <= tb <= cs@.len(),
            forall|k: int| ta <= k < j ==> cs@[k] != '=',
        decreases tb - j,
    {
        j = j + 1;
    }
    proof {
        assert(t == cs@.subrange(ta as int, tb as int));
        lemma_sep_offset(t, 0, j - ta, '=');
    }
    if j == tb {
        return Err(ConfigError::BadLine { line: number, text: text_of(s, cs, a, b) });
    }
    let (ka, kb) = trim_bounds(cs, ta, j);
    let (va, vb) = trim_bounds(cs, j + 1, tb);
    proof {
        assert(t.subrange(0, j - ta) =~= cs@.subrange(ta as int, j as int));
        assert(t.subrange(j - ta + 1, t.len() as int) =~= cs@.subrange(j + 1, tb as int));
    }
    let key = text_of(s, cs, ka, kb);
    if key == String::from_str("room") {
        f.room = Some(text_of(s, cs, va, vb));
        Ok(())
    } else if key == String::from_str("teacher") {
        f.teacher = Some(text_of(s, cs, va, vb));
        Ok(())
    } else if key == String::from_str("sign_key") {
        f.sign_key = Some(text_of(s, cs, va, vb));
        Ok(())
    } else if key == String::from_str("authorised_students") {
        f.students = Some(students_of(s, cs, va, vb));
        Ok(())
    } else {
        Err(ConfigError::UnknownKey { key, line: number })
    }
}

impl RoomConfig {
    /// Reads a configuration text: every line in order, a refused line
    /// stopping the reading; then room, teacher and sign_key must have been
    /// given.
    pub fn parse(content: &str) -> (r: Result<RoomConfig, ConfigError>)
        ensures
            match r {
                Ok(c) => config_of(content@) == Ok::<RoomConfigView, ConfigErrorView>(c@),
                Err(e) => config_of(content@) == Err::<RoomConfigView, ConfigErrorView>(e@),
            },
    {
        let cs = chars_of(content);
        let pieces = piece_ranges(&cs, '\n');
        let ghost ls = lines(content@);
        let ghost p = split(content@, '\n');
        let np = pieces.len();
        assert(p.len() >= 1);
        let last = pieces[np - 1];
        let nl = if last.0 == last.1 {
            np - 1
        } else {
            np
        };
        assert(ls.len() == nl);
        let mut f = Fields { room: None, teacher: None, sign_key: None, students: None };
        let mut i: usize = 0;
        while i < nl
            invariant
                i <= nl <= np == pieces@.len(),
                cs@ == content@,
                ls == lines(content@),
                p == split(content@, '\n'),
                range_texts(cs@, pieces@) == p,
                forall|k: int| 0 <= k < pieces@.len() ==> (#[trigger] pieces@[k]).0 <= pieces@[k].1 <= cs@.len(),
                ls.len() == nl,
                settings_of(ls, i as nat) == Ok::<Settings, ConfigErrorView>(fields_view(f)),
            decreases nl - i,
        {
            let (a, b0) = pieces[i];
            let b = if i + 1 < np && b0 > a && cs[b0 - 1] == '\r' {
                b0 - 1
            } else {
                b0
            };
            proof {
                assert(p[i as int] == cs@.subrange(a as int, b0 as int));
                assert(ls[i as int] =~= cs@.subrange(a as int, b as int));
            }
            match read_line(&mut f, content, &cs, a, b, i + 1) {
                Ok(()) => {},
                Err(e) => {
                    proof {
                        lemma_error_stays(ls, (i + 1) as nat, ls.len());
                    }
                    return Err(e);
                },
            }
            i = i + 1;
        }
        let Fields { room, teacher, sign_key, students } = f;
        match room {
            None => Err(ConfigError::MissingRoom),
            Some(room) => match teacher {
                None => Err(ConfigError::MissingTeacher),
                Some(teacher) => match sign_key {
                    None => Err(ConfigError::MissingSignKey),
                    Some(sign_key) => {
                        let authorised_students = match students {
                            Some(v) => v,
                            None => Vec::new(),
                        };
                        proof {
                            assert(texts(authorised_students@) =~= match fields_view(
                                Fields { room: None, teacher: None, sign_key: None, students },
                            ).students {
                                Some(v) => v,
                                None => Seq::<Seq<char>>::empty(),
                            });
                        }
                        Ok(RoomConfig { room, teacher, authorised_students, sign_key })
                    },
                },
            },
        }
    }
}

} // verus!
