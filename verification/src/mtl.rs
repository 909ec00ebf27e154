use vstd::prelude::*;
use vstd::string::StringExecFns;
use vstd::string::StrSliceExecFns;
use crate::text::lemma_words_are_words;
use crate::text::split_whitespace;
use crate::text::views;
use crate::text::words;
use crate::scalar::Real;
use crate::scalar::ONE_BITS;
use crate::vec3::Vec3;

verus! {

/// One material of a material file: its name, the three numbers of its
/// diffuse colour as they were written (none where the file gives no
/// colour), and the file names of its colour, bump and alpha maps.
#[derive(Debug)]
pub struct MtlInfo {
    pub name: String,
    pub kd: Option<(String, String, String)>,
    pub map_kd: Option<String>,
    pub map_bump: Option<String>,
    pub map_d: Option<String>,
}

/// A material as the contracts speak of it.
pub struct MtlModel {
    pub name: Seq<char>,
    pub kd: Option<(Seq<char>, Seq<char>, Seq<char>)>,
    pub map_kd: Option<Seq<char>>,
    pub map_bump: Option<Seq<char>>,
    pub map_d: Option<Seq<char>>,
}

/// What has been read of a material file: the materials that are complete,
/// in the order of the file, and the one being read.
pub struct MtlState {
    pub finished: Seq<MtlModel>,
    pub now: MtlModel,
}

/// Why a material file is refused.
#[derive(Debug, Clone, Copy, PartialEq, Eq, Structural)]
pub enum MtlError {
    /// The line with this number, counted from 1, starts a material and
    /// gives it no name.
    MissingName(usize),
}

/// Where the texture of a material comes from.
#[derive(Debug)]
pub enum TextureSource {
    /// From image files: the colour map, and the bump and alpha maps where
    /// the material has them.
    Mapped { color: String, bump: Option<String>, alpha: Option<String> },
    /// One colour: the three numbers as they were written, or none for the
    /// colour that a material has when the file gives none.
    Solid(Option<(String, String, String)>),
}

pub open spec fn text_view(text: Option<String>) -> Option<Seq<char>> {
    match text {
        Some(s) => Some(s@),
        None => None,
    }
}

pub open spec fn triple_view(kd: Option<(String, String, String)>) -> Option<
    (Seq<char>, Seq<char>, Seq<char>),
> {
    match kd {
        Some(t) => Some((t.0@, t.1@, t.2@)),
        None => None,
    }
}

impl View for MtlInfo {
    type V = MtlModel;

    open spec fn view(&self) -> MtlModel {
        MtlModel {
            name: self.name@,
            kd: triple_view(self.kd),
            map_kd: text_view(self.map_kd),
            map_bump: text_view(self.map_bump),
            map_d: text_view(self.map_d),
        }
    }
}

/// The views of a list of materials.
pub open spec fn models(list: Seq<MtlInfo>) -> Seq<MtlModel> {
    Seq::new(list.len(), |k: int| list[k]@)
}

/// A material that has its name and nothing else.
pub open spec fn fresh(name: Seq<char>) -> MtlModel {
    MtlModel { name, kd: None, map_kd: None, map_bump: None, map_d: None }
}

/// The state before the first line.
pub open spec fn initial() -> MtlState {
    MtlState { finished: Seq::empty(), now: fresh(Seq::empty()) }
}

/// The second word of a line, where it has one.
pub open spec fn argument(w: Seq<Seq<char>>) -> Option<Seq<char>> {
    if w.len() > 1 {
        Some(w[1])
    } else {
        None
    }
}

/// The materials that are complete once the one being read is closed: it
/// is kept when it has a name.
pub open spec fn closed(state: MtlState) -> Seq<MtlModel> {
    if state.now.name.len() > 0 {
        state.finished.push(state.now)
    } else {
        state.finished
    }
}

/// A line that says nothing: blank, or a comment.
pub open spec fn ignored(w: Seq<Seq<char>>) -> bool {
    w.len() == 0 || w[0][0] == '#'
}

/// The line starts a material without naming it.
pub open spec fn lacks_name(line: Seq<char>) -> bool {
    let w = words(line);
    !ignored(w) && w[0] == "newmtl"@ && w.len() < 2
}

/// The state after one more line that does not lack a name. `newmtl`
/// closes the material being read and starts the named one. `Kd` with
/// three numbers sets the colour. `map_Kd`, `map_bump` or `bump`, and
/// `map_d` set the colour, bump and alpha map to the word that follows,
/// or to nothing when none follows. Any other line changes nothing.
pub open spec fn after_line(state: MtlState, line: Seq<char>) -> MtlState {
    let w = words(line);
    let now = state.now;
    if ignored(w) {
        state
    } else if w[0] == "newmtl"@ {
        MtlState { finished: closed(state), now: fresh(w[1]) }
    } else if w[0] == "Kd"@ {
        if w.len() > 3 {
            MtlState { finished: state.finished, now: MtlModel { kd: Some((w[1], w[2], w[3])), ..now } }
        } else {
            state
        }
    } else if w[0] == "map_Kd"@ {
        MtlState { finished: state.finished, now: MtlModel { map_kd: argument(w), ..now } }
    } else if w[0] == "map_bump"@ || w[0] == "bump"@ {
        MtlState { finished: state.finished, now: MtlModel { map_bump: argument(w), ..now } }
    } else if w[0] == "map_d"@ {
        MtlState { finished: state.finished, now: MtlModel { map_d: argument(w), ..now } }
    } else {
        state
    }
}

/// The state after the first `n` lines, none of which lacks a name.
pub open spec fn after_lines(lines: Seq<Seq<char>>, n: nat) -> MtlState
    decreases n,
{
    if n == 0 {
        initial()
    } else {
        after_line(after_lines(lines, (n - 1) as nat), lines[n - 1])
    }
}

/// The first line that lacks a name, among the first `n` lines.
pub open spec fn first_bad_line(lines: Seq<Seq<char>>, n: nat) -> Option<nat>
    decreases n,
{
    if n == 0 {
        None
    } else if first_bad_line(lines, (n - 1) as nat) is Some {
        first_bad_line(lines, (n - 1) as nat)
    } else if lacks_name(lines[n - 1]) {
        Some((n - 1) as nat)
    } else {
        None
    }
}

/// What a material file comes to: the materials in the order of the file,
/// or the first line that starts a material without a name.
pub open spec fn parse_spec(lines: Seq<Seq<char>>) -> Result<Seq<MtlModel>, MtlError> {
    match first_bad_line(lines, lines.len()) {
        Some(k) => Err(MtlError::MissingName((k + 1) as usize)),
        None => Ok(closed(after_lines(lines, lines.len()))),
    }
}

/// The last material of a list that has the given name, which is the one
/// that a lookup by name finds.
pub open spec fn last_named(list: Seq<MtlModel>, name: Seq<char>) -> Option<int>
    decreases list.len(),
{
    if list.len() == 0 {
        None
    } else if list.last().name == name {
        Some(list.len() - 1)
    } else {
        last_named(list.drop_last(), name)
    }
}

/// The diffuse colour of a material to which the file gives none: red.
pub fn default_kd() -> (r: Vec3)
    ensures
        r.x.bits == ONE_BITS,
        r.y.bits == 0,
        r.z.bits == 0,
{
    Vec3 { x: Real::one(), y: Real::zero(), z: Real::zero() }
}

fn same_text(a: &String, b: &str) -> (r: bool)
    ensures
        r == (a@ == b@),
{
    let other = String::from_str(b);
    *a == other
}

fn copy_text(a: &String) -> (r: String)
    ensures
        r@ == a@,
{
    a.clone()
}

fn second_word(w: &Vec<String>) -> (r: Option<String>)
    ensures
        text_view(r) == argument(views(w@)),
{
    if w.len() > 1 {
        Some(copy_text(&w[1]))
    } else {
        None
    }
}

fn copy_kd(kd: &Option<(String, String, String)>) -> (r: Option<(String, String, String)>)
    ensures
        triple_view(r) == triple_view(*kd),
{
    match kd {
        Some(t) => Some((copy_text(&t.0), copy_text(&t.1), copy_text(&t.2))),
        None => None,
    }
}

fn copy_option(text: &Option<String>) -> (r: Option<String>)
    ensures
        text_view(r) == text_view(*text),
{
    match text {
        Some(s) => Some(copy_text(s)),
        None => None,
    }
}

/// A reader of material files, fed line by line.
pub struct MtlParser {
    pub finished: Vec<MtlInfo>,
    pub now: MtlInfo,
}

impl View for MtlParser {
    type V = MtlState;

    open spec fn view(&self) -> MtlState {
        MtlState { finished: models(self.finished@), now: self.now@ }
    }
}

impl MtlParser {
    pub fn new() -> (r: MtlParser)
        ensures
            r@ == initial(),
    {
        let r = MtlParser {
            finished: Vec::new(),
            now: MtlInfo { name: String::new(), kd: None, map_kd: None, map_bump: None, map_d: None },
        };
        proof {
            assert(models(r.finished@) =~= Seq::<MtlModel>::empty());
        }
        r
    }

    /// Reads one more line. A line that starts a material without a name
    /// is refused: `false` is returned and nothing changes.
    pub fn feed(&mut self, line: &str) -> (ok: bool)
        ensures
            ok == !lacks_name(line@),
            ok ==> final(self)@ == after_line(old(self)@, line@),
            !ok ==> final(self)@ == old(self)@,
    {
        let w = split_whitespace(line);
        proof {
            lemma_words_are_words(line@, 0);
            assert(forall|k: int| 0 <= k < w@.len() ==> (#[trigger] w@[k])@ == views(w@)[k]);
        }
        if w.len() == 0 {
            return true;
        }
        assert(w@[0]@ == words(line@)[0]);
        if w[0].as_str().get_char(0) == '#' {
            return true;
        }
        if same_text(&w[0], "newmtl") {
            if w.len() < 2 {
                return false;
            }
            let next = MtlInfo {
                name: copy_text(&w[1]),
                kd: None,
                map_kd: None,
                map_bump: None,
                map_d: None,
            };
            let ghost before = models(self.finished@);
            let ghost was = self.now@;
            if self.now.name.as_str().unicode_len() > 0 {
                let done = MtlInfo {
                    name: copy_text(&self.now.name),
                    kd: copy_kd(&self.now.kd),
                    map_kd: copy_option(&self.now.map_kd),
                    map_bump: copy_option(&self.now.map_bump),
                    map_d: copy_option(&self.now.map_d),
                };
                self.finished.push(done);
                proof {
                    assert(models(self.finished@) =~= before.push(was));
                }
            }
            self.now = next;
        } else if same_text(&w[0], "Kd") {
            if w.len() > 3 {
                self.now.kd = Some((copy_text(&w[1]), copy_text(&w[2]), copy_text(&w[3])));
            }
        } else if same_text(&w[0], "map_Kd") {
            self.now.map_kd = second_word(&w);
        } else if same_text(&w[0], "map_bump") || same_text(&w[0], "bump") {
            self.now.map_bump = second_word(&w);
        } else if same_text(&w[0], "map_d") {
            self.now.map_d = second_word(&w);
        }
        true
    }

    /// Closes the material being read and hands out the materials.
    pub fn finish(self) -> (r: Vec<MtlInfo>)
        ensures
            models(r@) == closed(self@),
    {
        let mut finished = self.finished;
        let ghost before = models(finished@);
        if self.now.name.as_str().unicode_len() > 0 {
            finished.push(self.now);
            proof {
                assert(models(finished@) =~= before.push(self.now@));
            }
        }
        finished
    }
}

/// Reads the lines of a material file.
pub fn process_mtl_file(lines: &Vec<String>) -> (r: Result<Vec<MtlInfo>, MtlError>)
    ensures
        match r {
            Ok(list) => parse_spec(views(lines@)) == Ok::<Seq<MtlModel>, MtlError>(models(list@)),
            Err(e) => parse_spec(views(lines@)) == Err::<Seq<MtlModel>, MtlError>(e),
        },
{
    let mut parser = MtlParser::new();
    let mut k: usize = 0;
    while k < lines.len()
        invariant
            k <= lines@.len(),
            first_bad_line(views(lines@), k as nat) is None,
            parser@ == after_lines(views(lines@), k as nat),
        decreases lines@.len() - k,
    {
        assert(views(lines@)[k as int] == lines@[k as int]@);
        if !parser.feed(lines[k].as_str()) {
            proof {
                lemma_bad_line_stays(views(lines@), (k + 1) as nat, lines@.len() as nat);
            }
            return Err(MtlError::MissingName(k + 1));
        }
        k = k + 1;
    }
    Ok(parser.finish())
}

/// Once a line lacks a name, the first such line stays the same however
/// many lines follow.
proof fn lemma_bad_line_stays(lines: Seq<Seq<char>>, n: nat, m: nat)
    requires
        n <= m,
        first_bad_line(lines, n) is Some,
    ensures
        first_bad_line(lines, m) == first_bad_line(lines, n),
    decreases m - n,
{
    if n < m {
        lemma_bad_line_stays(lines, n, (m - 1) as nat);
    }
}

/// Finds a material by its name: the last one of that name in the list.
pub fn find_material(list: &Vec<MtlInfo>, name: &str) -> (r: Option<usize>)
    ensures
        match r {
            Some(k) => last_named(models(list@), name@) == Some(k as int),
            None => last_named(models(list@), name@) is None,
        },
{
    let mut k = list.len();
    let ghost all = models(list@);
    proof {
        assert(all.subrange(0, k as int) =~= all);
    }
    while k > 0
        invariant
            k <= list@.len(),
            all == models(list@),
            last_named(all, name@) == last_named(all.subrange(0, k as int), name@),
        decreases k,
    {
        k = k - 1;
        proof {
            let upto = all.subrange(0, k + 1);
            assert(upto.last() == list@[k as int]@);
            assert(upto.drop_last() =~= all.subrange(0, k as int));
        }
        if same_text(&list[k].name, name) {
            return Some(k);
        }
    }
    None
}

/// Decides where the texture of a material comes from: a material with a
/// colour map takes its texture from the image files, any other is of one
/// colour.
pub fn create_texture(material: &MtlInfo) -> (r: TextureSource)
    ensures
        match r {
            TextureSource::Mapped { color, bump, alpha } => {
                &&& material@.map_kd == Some(color@)
                &&& text_view(bump) == material@.map_bump
                &&& text_view(alpha) == material@.map_d
            },
            TextureSource::Solid(kd) => material@.map_kd is None && triple_view(kd) == material@.kd,
        },
{
    match &material.map_kd {
        Some(color) => TextureSource::Mapped {
            color: copy_text(color),
            bump: copy_option(&material.map_bump),
            alpha: copy_option(&material.map_d),
        },
        None => TextureSource::Solid(copy_kd(&material.kd)),
    }
}

} // verus!
