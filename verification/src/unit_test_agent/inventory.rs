//! Public-item scanner for Rust sources.

use vstd::prelude::*;
use crate::text::{
    chars_of, ends_with, has_char, lemma_trimmed_end, lemma_trimmed_start, lines, lines_of,
    replace_char, replaced, slice_is, starts_with, string_of, trim, trimmed, trimmed_end,
    trimmed_start,
};
use crate::unit_test_agent::syntax::{
    cfg_test_attr, cfg_test_attr_chars, complete_from, impl_type, is_pub_use_start,
    parse_impl_type, parse_pub_item_chars, parse_pub_use_chars, pub_item, pub_use_start,
    pub_use_statement, statement_complete_at_semi,
};
use crate::unit_test_agent::types::{
    InventoryItem, ItemKind, ItemView, Visibility, VisibilityView,
};

verus! {

/// What the scanner is inside of between two characters of a source.
#[derive(Debug, Clone, Copy, PartialEq, Eq, Structural)]
pub enum StringState {
    /// Ordinary code.
    Code,
    /// A `"…"` literal.
    NormalStr,
    /// A raw literal that ends with a quote and this many hashes.
    RawStr { hashes: usize },
}

/// The number of `#` that a text begins with.
pub open spec fn hash_run(s: Seq<char>) -> nat
    decreases s.len(),
{
    if s.len() > 0 && s[0] == '#' {
        1 + hash_run(s.skip(1))
    } else {
        0
    }
}

pub proof fn lemma_hash_run(s: Seq<char>)
    ensures
        hash_run(s) <= s.len(),
        forall|i: int| 0 <= i < hash_run(s) ==> s[i] == '#',
        hash_run(s) < s.len() ==> s[hash_run(s) as int] != '#',
    decreases s.len(),
{
    if s.len() > 0 && s[0] == '#' {
        lemma_hash_run(s.skip(1));
        assert forall|i: int| 0 <= i < hash_run(s) implies s[i] == '#' by {
            if i > 0 {
                assert(s.skip(1)[i - 1] == s[i]);
            }
        }
    }
}

fn count_hashes(s: &[char]) -> (r: usize)
    ensures
        r == hash_run(s@),
        r <= s@.len(),
{
    let mut n: usize = 0;
    assert(s@.skip(0) == s@);
    while n < s.len() && s[n] == '#'
        invariant
            n <= s@.len(),
            hash_run(s@) == n + hash_run(s@.skip(n as int)),
        decreases s@.len() - n,
    {
        assert(s@.skip(n as int).skip(1) == s@.skip(n as int + 1));
        n += 1;
    }
    n
}

/// Whether `s` begins with the opening of a raw string: `r`, hashes, a quote.
pub open spec fn opens_raw(s: Seq<char>) -> bool {
    let h = hash_run(s.skip(1)) as int;
    s.len() > 0 && s[0] == 'r' && 1 + h < s.len() && s[1 + h] == '"'
}

/// Whether `s` begins with the end of a raw string of `hashes` hashes.
pub open spec fn closes_raw(s: Seq<char>, hashes: usize) -> bool {
    s.len() > 0 && s[0] == '"' && hash_run(s.skip(1)) >= hashes
}

/// What a brace adds to the nesting depth.
pub open spec fn brace_step(c: char) -> int {
    if c == '{' {
        1
    } else if c == '}' {
        -1
    } else {
        0
    }
}

/// What a line holds outside strings and comments.
pub struct LineScan {
    /// The code characters of the line.
    pub code: Seq<char>,
    /// Opening less closing braces of the code.
    pub net: int,
    /// What the next line begins inside of.
    pub state: StringState,
}

/// Reads a line that begins in `state`: characters of string literals and of a `//` comment are
/// left out, and so are the quotes.
pub open spec fn line_scan(line: Seq<char>, state: StringState) -> LineScan
    decreases line.len(),
{
    proof {
        if line.len() > 0 {
            lemma_hash_run(line.skip(1));
        }
    }
    if line.len() == 0 {
        LineScan { code: Seq::empty(), net: 0, state }
    } else {
        match state {
            StringState::Code => if line.len() > 1 && line[0] == '/' && line[1] == '/' {
                LineScan { code: Seq::empty(), net: 0, state }
            } else if opens_raw(line) {
                let h = hash_run(line.skip(1)) as int;
                line_scan(line.skip(h + 2), StringState::RawStr { hashes: h as usize })
            } else if line[0] == '"' {
                line_scan(line.skip(1), StringState::NormalStr)
            } else {
                let rest = line_scan(line.skip(1), state);
                LineScan {
                    code: seq![line[0]] + rest.code,
                    net: brace_step(line[0]) + rest.net,
                    state: rest.state,
                }
            },
            StringState::NormalStr => if line[0] == '\\' && line.len() > 1 {
                line_scan(line.skip(2), state)
            } else if line[0] == '"' {
                line_scan(line.skip(1), StringState::Code)
            } else {
                line_scan(line.skip(1), state)
            },
            StringState::RawStr { hashes } => if closes_raw(line, hashes) {
                line_scan(line.skip(1 + hashes as int), StringState::Code)
            } else {
                line_scan(line.skip(1), state)
            },
        }
    }
}

/// Scan one source line starting in `start`: code-only text, net braces, new state.
pub fn scan_line_code(line: &[char], start: StringState) -> (r: (Vec<char>, i128, StringState))
    ensures
        r.0@ == line_scan(line@, start).code,
        r.1 == line_scan(line@, start).net,
        r.2 == line_scan(line@, start).state,
        -line@.len() <= r.1 <= line@.len(),
        line@.len() <= u64::MAX,
{
    let mut code: Vec<char> = Vec::new();
    let mut net: i128 = 0;
    let mut state = start;
    let mut i: usize = 0;
    let ghost whole = line_scan(line@, start);
    let len: usize = line.len();
    assert(len <= u64::MAX);
    assert(line@.skip(0) == line@);
    assert(code@ + whole.code == whole.code);
    while i < line.len()
        invariant
            i <= line@.len() <= u64::MAX,
            -(i as int) <= net <= i,
            whole == line_scan(line@, start),
            whole.code == code@ + line_scan(line@.skip(i as int), state).code,
            whole.net == net + line_scan(line@.skip(i as int), state).net,
            whole.state == line_scan(line@.skip(i as int), state).state,
        decreases line@.len() - i,
    {
        let rest = &line[i..line.len()];
        assert(rest@ == line@.skip(i as int));
        let tail = &rest[1..rest.len()];
        assert(tail@ == rest@.skip(1));
        proof {
            lemma_hash_run(tail@);
        }
        match state {
            StringState::Code => {
                if rest.len() > 1 && rest[0] == '/' && rest[1] == '/' {
                    assert(code@ + Seq::<char>::empty() == code@);
                    return (code, net, state);
                }
                if rest[0] == 'r' {
                    let h: usize = count_hashes(tail);
                    if h < tail.len() && tail[h] == '"' {
                        assert(opens_raw(rest@));
                        assert(rest@.skip(h + 2) == line@.skip(i + h + 2));
                        state = StringState::RawStr { hashes: h };
                        i = i + h + 2;
                        continue;
                    }
                }
                assert(!opens_raw(rest@));
                assert(rest@.skip(1) == line@.skip(i + 1));
                if rest[0] == '"' {
                    state = StringState::NormalStr;
                    i += 1;
                    continue;
                }
                let c = rest[0];
                if c == '{' {
                    net += 1;
                } else if c == '}' {
                    net -= 1;
                }
                let ghost before = code@;
                code.push(c);
                proof {
                    let after = line_scan(line@.skip(i + 1), state);
                    assert(before + (seq![c] + after.code) == code@ + after.code);
                }
                i += 1;
            },
            StringState::NormalStr => {
                if rest[0] == '\\' && rest.len() > 1 {
                    assert(rest@.skip(2) == line@.skip(i + 2));
                    i += 2;
                    continue;
                }
                assert(rest@.skip(1) == line@.skip(i + 1));
                if rest[0] == '"' {
                    state = StringState::Code;
                }
                i += 1;
            },
            StringState::RawStr { hashes } => {
                if rest[0] == '"' && count_hashes(tail) >= hashes {
                    assert(rest@.skip(1 + hashes as int) == line@.skip(i + 1 + hashes));
                    i = i + 1 + hashes;
                    state = StringState::Code;
                    continue;
                }
                assert(rest@.skip(1) == line@.skip(i + 1));
                i += 1;
            },
        }
    }
    assert(code@ + Seq::<char>::empty() == code@);
    (code, net, state)
}

/// What the scanner remembers between two lines of a file.
pub struct ScanState {
    /// Open braces of a test module that is being skipped; 0 outside one.
    pub skip: int,
    /// A test attribute was read and its item not yet.
    pub pending: bool,
    /// The `impl` blocks that are open: brace depth before each, and its type.
    pub impls: Seq<(int, Seq<char>)>,
    /// Open braces.
    pub depth: int,
    /// What the next line begins inside of.
    pub strings: StringState,
}

/// The scanner at the start of a file.
pub open spec fn scan_start() -> ScanState {
    ScanState {
        skip: 0,
        pending: false,
        impls: Seq::empty(),
        depth: 0,
        strings: StringState::Code,
    }
}

/// The `impl` blocks that are still open at `depth`.
pub open spec fn still_open(impls: Seq<(int, Seq<char>)>, depth: int) -> Seq<(int, Seq<char>)>
    decreases impls.len(),
{
    if impls.len() > 0 && depth <= impls.last().0 {
        still_open(impls.drop_last(), depth)
    } else {
        impls
    }
}

/// A function inside an `impl` block carries the name of its type.
pub open spec fn qualified(
    impls: Seq<(int, Seq<char>)>,
    kind: ItemKind,
    name: Seq<char>,
) -> Seq<char> {
    if kind == ItemKind::Fn && impls.len() > 0 {
        impls.last().1 + "::"@ + name
    } else {
        name
    }
}

/// A `use` statement that runs over several lines.
pub struct UseScan {
    /// The statement, its lines trimmed and joined with single spaces.
    pub stmt: Seq<char>,
    /// The line that it ends on.
    pub end: int,
    pub strings: StringState,
    pub depth: int,
}

/// Reads on from line `end` until the statement is complete or the file ends.
pub open spec fn use_scan(
    all: Seq<Seq<char>>,
    end: int,
    stmt: Seq<char>,
    strings: StringState,
    depth: int,
) -> UseScan
    decreases all.len() - end,
{
    if complete_from(stmt, 0) || end + 1 >= all.len() {
        UseScan { stmt, end, strings, depth }
    } else {
        let more = line_scan(all[end + 1], strings);
        let part = trimmed(more.code);
        use_scan(
            all,
            end + 1,
            if part.len() == 0 {
                stmt
            } else {
                stmt + seq![' '] + part
            },
            more.state,
            depth + more.net,
        )
    }
}

/// The file and the package that items are found in.
pub struct Place {
    pub crate_name: Seq<char>,
    pub path: Seq<char>,
}

/// An item at a place.
pub open spec fn item_at(
    place: Place,
    item: Seq<char>,
    kind: ItemKind,
    visibility: VisibilityView,
    line: int,
) -> ItemView {
    ItemView {
        crate_name: place.crate_name,
        path: replaced(place.path, '\\', '/'),
        item,
        kind,
        visibility,
        line: Some(line as u32),
    }
}

/// What reading from one line gives.
pub struct ScanStep {
    /// The items that were declared.
    pub items: Seq<ItemView>,
    pub state: ScanState,
    /// The next line to read.
    pub next: int,
}

/// Reads line `i` (and, for a `use` statement, the lines that it runs over).
pub open spec fn scan_step(
    all: Seq<Seq<char>>,
    i: int,
    st: ScanState,
    place: Place,
) -> ScanStep {
    let scan = line_scan(all[i], st.strings);
    let depth = st.depth + scan.net;
    let t = trimmed(scan.code);
    let moved = ScanState { depth, strings: scan.state, ..st };
    let plain = |state: ScanState| ScanStep { items: Seq::empty(), state, next: i + 1 };
    if st.skip > 0 {
        let left = st.skip + scan.net;
        plain(
            ScanState {
                skip: if left <= 0 {
                    0
                } else {
                    left
                },
                impls: still_open(st.impls, depth),
                ..moved
            },
        )
    } else if t.len() == 0 && scan.state is Code {
        plain(moved)
    } else if cfg_test_attr(t) {
        plain(ScanState { pending: true, ..moved })
    } else if "#["@.is_prefix_of(t) {
        plain(moved)
    } else if st.pending && scan.state is Code {
        if "mod "@.is_prefix_of(t) {
            if t.contains('{') {
                plain(
                    ScanState {
                        skip: if scan.net < 1 {
                            1
                        } else {
                            scan.net
                        },
                        pending: false,
                        ..moved
                    },
                )
            } else if ";"@.is_suffix_of(t) {
                plain(ScanState { pending: false, ..moved })
            } else {
                plain(moved)
            }
        } else if t == "{"@ {
            plain(ScanState { skip: 1, pending: false, depth: st.depth + 1, ..moved })
        } else {
            plain(ScanState { pending: false, ..moved })
        }
    } else {
        let impls = match impl_type(t) {
            Some(ty) => st.impls.push((st.depth, ty)),
            None => st.impls,
        };
        if pub_use_start(t) {
            let u = use_scan(all, i, t, scan.state, depth);
            ScanStep {
                items: match pub_use_statement(u.stmt) {
                    Some((vis, names)) => names.map_values(
                        |name: Seq<char>| item_at(place, name, ItemKind::Use, vis, i + 1),
                    ),
                    None => Seq::empty(),
                },
                state: ScanState {
                    strings: u.strings,
                    depth: u.depth,
                    impls: still_open(impls, u.depth),
                    ..st
                },
                next: u.end + 1,
            }
        } else {
            ScanStep {
                items: match pub_item(t) {
                    Some((vis, kind, name)) => if kind == ItemKind::Use {
                        Seq::empty()
                    } else {
                        seq![item_at(place, qualified(impls, kind, name), kind, vis, i + 1)]
                    },
                    None => Seq::empty(),
                },
                state: ScanState { impls: still_open(impls, depth), ..moved },
                next: i + 1,
            }
        }
    }
}

/// A statement ends no earlier than it begins.
pub proof fn lemma_use_scan(
    all: Seq<Seq<char>>,
    end: int,
    stmt: Seq<char>,
    strings: StringState,
    depth: int,
)
    ensures
        use_scan(all, end, stmt, strings, depth).end >= end,
        end < all.len() ==> use_scan(all, end, stmt, strings, depth).end < all.len(),
    decreases all.len() - end,
{
    if complete_from(stmt, 0) || end + 1 >= all.len() {
    } else {
        let more = line_scan(all[end + 1], strings);
        let part = trimmed(more.code);
        let next = if part.len() == 0 {
            stmt
        } else {
            stmt + seq![' '] + part
        };
        lemma_use_scan(all, end + 1, next, more.state, depth + more.net);
    }
}

/// The items of the lines from `i` on.
pub open spec fn items_from(
    all: Seq<Seq<char>>,
    i: int,
    st: ScanState,
    place: Place,
) -> Seq<ItemView>
    decreases all.len() - i,
{
    proof {
        lemma_scan_step_next(all, i, st, place);
    }
    if i < 0 || i >= all.len() {
        Seq::empty()
    } else {
        let step = scan_step(all, i, st, place);
        step.items + items_from(all, step.next, step.state, place)
    }
}

/// Reading always moves on.
pub proof fn lemma_scan_step_next(all: Seq<Seq<char>>, i: int, st: ScanState, place: Place)
    ensures
        scan_step(all, i, st, place).next > i,
        i < all.len() ==> scan_step(all, i, st, place).next <= all.len(),
{
    let scan = line_scan(all[i], st.strings);
    lemma_use_scan(all, i, trimmed(scan.code), scan.state, st.depth + scan.net);
}

/// The public items of a source text.
pub open spec fn public_items(source: Seq<char>, crate_name: Seq<char>, path: Seq<char>) -> Seq<
    ItemView,
> {
    items_from(lines_of(source), 0, scan_start(), Place { crate_name, path })
}

/// The executable counterpart of `ScanState`.
struct Scanner {
    skip: i128,
    pending: bool,
    impls: Vec<(i128, String)>,
    depth: i128,
    strings: StringState,
}

/// Braces of one line are counted in 32 bits.
const LINE_MAX: u32 = 0xffff_ffff;

impl Scanner {
    spec fn view(&self) -> ScanState {
        ScanState {
            skip: self.skip as int,
            pending: self.pending,
            impls: Seq::new(
                self.impls@.len(),
                |k: int| (self.impls@[k].0 as int, self.impls@[k].1@),
            ),
            depth: self.depth as int,
            strings: self.strings,
        }
    }

    /// After `i` lines neither counter has moved farther than `i` lines can take it.
    spec fn within(&self, i: int) -> bool {
        &&& -(i * 0xffff_ffff_ffff_ffff) <= self.depth <= i * 0xffff_ffff_ffff_ffff
        &&& 0 <= self.skip <= i * 0xffff_ffff_ffff_ffff
        &&& 0 <= i <= LINE_MAX
    }

    fn close_impls(&mut self)
        ensures
            final(self).view() == (ScanState {
                impls: still_open(old(self).view().impls, old(self).depth as int),
                ..old(self).view()
            }),
    {
        let ghost first = self.view();
        while self.impls.len() > 0 && self.depth <= self.impls[self.impls.len() - 1].0
            invariant
                first.impls.len() >= 0,
                self.view() == (ScanState { impls: self.view().impls, ..first }),
                still_open(self.view().impls, first.depth) == still_open(first.impls, first.depth),
            decreases self.impls@.len(),
        {
            let ghost before = self.view().impls;
            self.impls.pop();
            assert(self.view().impls =~= before.drop_last());
        }
    }

    fn note_impl(&mut self, line: &[char])
        ensures
            final(self).view() == (ScanState {
                impls: match impl_type(line@) {
                    Some(ty) => old(self).view().impls.push((old(self).depth as int, ty)),
                    None => old(self).view().impls,
                },
                ..old(self).view()
            }),
    {
        let ghost before = self.view().impls;
        if let Some(ty) = parse_impl_type(line) {
            let depth: i128 = self.depth;
            self.impls.push((depth, ty));
            assert(self.view().impls =~= before.push((depth as int, ty@)));
        }
    }

    fn qualify_item_name_simple(&self, kind: ItemKind, name: String) -> (r: String)
        ensures
            r@ == qualified(self.view().impls, kind, name@),
    {
        let n: usize = self.impls.len();
        if kind == ItemKind::Fn && n > 0 {
            let mut out = self.impls[n - 1].1.clone();
            out.append("::");
            out.append(name.as_str());
            assert(out@ == self.view().impls.last().1 + "::"@ + name@);
            out
        } else {
            name
        }
    }

    /// Reads line `i` and, for a `use` statement, the lines that it runs over. Found items are
    /// appended to `out`; the next line to read is returned.
    #[verifier::rlimit(60)]
    fn step(
        &mut self,
        all: &Vec<&[char]>,
        i: usize,
        crate_name: &str,
        path: &[char],
        out: &mut Vec<InventoryItem>,
    ) -> (next: usize)
        requires
            i < all@.len() <= LINE_MAX,
            old(self).within(i as int),
        ensures
            ({
                let step = scan_step(
                    text_lines(all@),
                    i as int,
                    old(self).view(),
                    Place { crate_name: crate_name@, path: path@ },
                );
                &&& final(out).deep_view() == old(out).deep_view() + step.items
                &&& final(self).view() == step.state
                &&& next == step.next
            }),
            i < next <= all@.len(),
            final(self).within(next as int),
    {
        let ghost texts = text_lines(all@);
        let ghost place = Place { crate_name: crate_name@, path: path@ };
        let ghost st = self.view();
        let ghost expected = scan_step(texts, i as int, st, place);
        let (code, net, state) = scan_line_code(all[i], self.strings);
        assert(texts[i as int] == all@[i as int]@);
        self.strings = state;
        assert(old(out).deep_view() + Seq::<ItemView>::empty() =~= old(out).deep_view());
        if self.skip > 0 {
            let left: i128 = self.skip + net;
            self.skip = if left <= 0 { 0 } else { left };
            self.depth = self.depth + net;
            self.close_impls();
            assert(self.view().impls =~= expected.state.impls);
            return i + 1;
        }
        let t = trim(&code);
        let in_code = state == StringState::Code;
        if t.len() == 0 && in_code {
            self.depth = self.depth + net;
            assert(self.view().impls =~= st.impls);
            return i + 1;
        }
        if cfg_test_attr_chars(t) {
            self.pending = true;
            self.depth = self.depth + net;
            assert(self.view().impls =~= st.impls);
            return i + 1;
        }
        if starts_with(t, "#[") {
            self.depth = self.depth + net;
            assert(self.view().impls =~= st.impls);
            return i + 1;
        }
        if self.pending && in_code {
            if starts_with(t, "mod ") {
                if has_char(t, '{') {
                    self.skip = if net < 1 { 1 } else { net };
                    self.pending = false;
                } else if ends_with(t, ";") {
                    self.pending = false;
                }
                self.depth = self.depth + net;
            } else if slice_is(t, "{") {
                self.skip = 1;
                self.pending = false;
                self.depth = self.depth + 1;
            } else {
                self.pending = false;
                self.depth = self.depth + net;
            }
            assert(self.view().impls =~= st.impls);
            return i + 1;
        }
        self.note_impl(t);
        let ghost impls = self.view().impls;
        if is_pub_use_start(t) {
            let end = self.read_use(all, i, t, net, crate_name, path, out);
            self.close_impls();
            return end + 1;
        }
        if let Some((vis, kind, name)) = parse_pub_item_chars(t) {
            if kind != ItemKind::Use {
                let item = self.qualify_item_name_simple(kind, name);
                let ghost before = out.deep_view();
                out.push(new_item(crate_name, path, item, kind, vis, i));
                assert(out.deep_view() =~= before + expected.items);
            }
        }
        self.depth = self.depth + net;
        assert(self.view().impls =~= impls);
        self.close_impls();
        i + 1
    }

    /// Reads a `use` statement that begins on line `i` with `head`, and appends its imports.
    fn read_use(
        &mut self,
        all: &Vec<&[char]>,
        i: usize,
        head: &[char],
        net: i128,
        crate_name: &str,
        path: &[char],
        out: &mut Vec<InventoryItem>,
    ) -> (end: usize)
        requires
            i < all@.len() <= LINE_MAX,
            old(self).within(i as int),
            -0xffff_ffff_ffff_ffff <= net <= 0xffff_ffff_ffff_ffff,
        ensures
            ({
                let u = use_scan(
                    text_lines(all@),
                    i as int,
                    head@,
                    old(self).strings,
                    old(self).depth + net,
                );
                let place = Place { crate_name: crate_name@, path: path@ };
                &&& end == u.end
                &&& final(self).view() == (ScanState {
                    strings: u.strings,
                    depth: u.depth,
                    ..old(self).view()
                })
                &&& final(out).deep_view() == old(out).deep_view() + match pub_use_statement(
                    u.stmt,
                ) {
                    Some((vis, names)) => names.map_values(
                        |name: Seq<char>| item_at(place, name, ItemKind::Use, vis, i + 1),
                    ),
                    None => Seq::empty(),
                }
            }),
            i <= end < all@.len(),
            final(self).within(end + 1),
    {
        let ghost texts = text_lines(all@);
        let ghost place = Place { crate_name: crate_name@, path: path@ };
        let ghost whole = use_scan(
            texts,
            i as int,
            head@,
            self.strings,
            self.depth + net,
        );
        let mut stmt: Vec<char> = Vec::new();
        append_chars(&mut stmt, head);
        assert(stmt@ == head@);
        let mut end: usize = i;
        let mut strings = self.strings;
        let mut depth: i128 = self.depth + net;
        while !statement_complete_at_semi(&stmt) && end + 1 < all.len()
            invariant
                i <= end < all@.len() <= LINE_MAX,
                texts == text_lines(all@),
                -((end + 1) * 0xffff_ffff_ffff_ffff) <= depth <= (end + 1) * 0xffff_ffff_ffff_ffff,
                whole == use_scan(texts, end as int, stmt@, strings, depth as int),
            decreases all@.len() - end,
        {
            end += 1;
            assert(texts[end as int] == all@[end as int]@);
            let (more, more_net, state) = scan_line_code(all[end], strings);
            strings = state;
            depth = depth + more_net;
            let part = trim(&more);
            if part.len() > 0 {
                let ghost before = stmt@;
                stmt.push(' ');
                append_chars(&mut stmt, part);
                assert(stmt@ == before + seq![' '] + part@);
            }
        }
        if let Some((vis, names)) = parse_pub_use_chars(&stmt) {
            let ghost all_names = names.deep_view();
            let ghost items = all_names.map_values(
                |name: Seq<char>| item_at(place, name, ItemKind::Use, vis.deep_view(), i + 1),
            );
            let ghost before = out.deep_view();
            let mut k: usize = 0;
            assert(before + items.take(0) == before);
            while k < names.len()
                invariant
                    i < LINE_MAX,
                    k <= names@.len(),
                    place == (Place { crate_name: crate_name@, path: path@ }),
                    all_names == names.deep_view(),
                    items == all_names.map_values(
                        |name: Seq<char>|
                            item_at(place, name, ItemKind::Use, vis.deep_view(), i + 1),
                    ),
                    out.deep_view() == before + items.take(k as int),
                decreases names@.len() - k,
            {
                let ghost so_far = out.deep_view();
                out.push(
                    new_item(
                        crate_name,
                        path,
                        names[k].clone(),
                        ItemKind::Use,
                        vis.copied(),
                        i,
                    ),
                );
                assert(out.deep_view() =~= so_far.push(items[k as int]));
                assert(items.take(k + 1) == items.take(k as int).push(items[k as int]));
                k += 1;
            }
            assert(items.take(items.len() as int) == items);
        } else {
            assert(out.deep_view() + Seq::<ItemView>::empty() == out.deep_view());
        }
        self.strings = strings;
        self.depth = depth;
        assert(self.view().impls =~= old(self).view().impls);
        end
    }
}

fn append_chars(out: &mut Vec<char>, s: &[char])
    ensures
        final(out)@ == old(out)@ + s@,
{
    let mut i: usize = 0;
    assert(s@.take(0) == Seq::<char>::empty());
    while i < s.len()
        invariant
            i <= s@.len(),
            out@ == old(out)@ + s@.take(i as int),
        decreases s@.len() - i,
    {
        out.push(s[i]);
        assert(s@.take(i as int + 1) == s@.take(i as int).push(s@[i as int]));
        i += 1;
    }
    assert(s@.take(s@.len() as int) == s@);
}

fn new_item(
    crate_name: &str,
    path: &[char],
    item: String,
    kind: ItemKind,
    visibility: Visibility,
    i: usize,
) -> (r: InventoryItem)
    requires
        i < LINE_MAX,
    ensures
        r.deep_view() == item_at(
            Place { crate_name: crate_name@, path: path@ },
            item@,
            kind,
            visibility.deep_view(),
            i + 1,
        ),
{
    let slashed = replace_char(path, '\\', '/');
    InventoryItem {
        crate_name: crate_name.to_string(),
        path: string_of(&slashed),
        item,
        kind,
        visibility,
        line: Some((i + 1) as u32),
    }
}

/// The texts of a vector of lines.
spec fn text_lines(all: Seq<&[char]>) -> Seq<Seq<char>> {
    Seq::new(all.len(), |k: int| all[k]@)
}

/// Parse public items from a single Rust source string.
///
/// Line-oriented scanner: finds `pub` / `pub(...)` item declarations at the
/// start of a (possibly attribute-decorated) item. Skips content inside
/// `#[cfg(test)]` modules. Brace depth tracks across multi-line (raw) strings
/// so test fixtures containing sample `pub` source are not inventoried.
///
/// Line numbers are 32-bit, so the source must have no more lines than they can count.
pub fn parse_public_items(source: &str, crate_name: &str, rel_path: &str) -> (r: Vec<
    InventoryItem,
>)
    requires
        lines_of(source@).len() <= u32::MAX,
    ensures
        r.deep_view() == public_items(source@, crate_name@, rel_path@),
{
    let text = chars_of(source);
    let path = chars_of(rel_path);
    let all = lines(&text);
    let ghost place = Place { crate_name: crate_name@, path: rel_path@ };
    let ghost texts = text_lines(all@);
    let ghost expected = public_items(source@, crate_name@, rel_path@);
    assert(texts == lines_of(source@));
    let mut items: Vec<InventoryItem> = Vec::new();
    let mut scanner = Scanner {
        skip: 0,
        pending: false,
        impls: Vec::new(),
        depth: 0,
        strings: StringState::Code,
    };
    assert(scanner.view().impls =~= Seq::empty());
    assert(items.deep_view() + expected =~= expected);
    let mut i: usize = 0;
    while i < all.len()
        invariant
            i <= all@.len() <= LINE_MAX,
            texts == text_lines(all@),
            place == (Place { crate_name: crate_name@, path: path@ }),
            scanner.within(i as int),
            expected == items.deep_view() + items_from(texts, i as int, scanner.view(), place),
        decreases all@.len() - i,
    {
        let ghost before = items.deep_view();
        let ghost st = scanner.view();
        let ghost step = scan_step(texts, i as int, st, place);
        i = scanner.step(&all, i, crate_name, &path, &mut items);
        proof {
            let rest = items_from(texts, step.next, step.state, place);
            assert(before + (step.items + rest) == before + step.items + rest);
        }
    }
    assert(items.deep_view() + Seq::<ItemView>::empty() == items.deep_view());
    items
}

/// While a test module is being skipped no line declares anything.
pub proof fn law_skipped_module_declares_nothing(
    all: Seq<Seq<char>>,
    i: int,
    st: ScanState,
    place: Place,
)
    requires
        st.skip > 0,
    ensures
        scan_step(all, i, st, place).items.len() == 0,
        scan_step(all, i, st, place).next == i + 1,
{
}

/// A line without quotes that begins inside a raw string stays inside it.
proof fn lemma_raw_line(line: Seq<char>, hashes: usize)
    requires
        !line.contains('"'),
    ensures
        line_scan(line, StringState::RawStr { hashes }) == (LineScan {
            code: Seq::empty(),
            net: 0,
            state: StringState::RawStr { hashes },
        }),
    decreases line.len(),
{
    if line.len() > 0 {
        assert(line[0] != '"');
        assert forall|k: int| 0 <= k < line.skip(1).len() implies line.skip(1)[k] != '"' by {
            assert(line.skip(1)[k] == line[k + 1]);
        }
        lemma_raw_line(line.skip(1), hashes);
    }
}

/// Text inside a multi-line raw string is never taken for code: such a line declares nothing and
/// changes nothing that the scanner remembers, whatever it says.
pub proof fn law_raw_string_lines_are_not_code(
    all: Seq<Seq<char>>,
    i: int,
    st: ScanState,
    place: Place,
)
    requires
        0 <= i < all.len(),
        st.strings is RawStr,
        st.skip >= 0,
        !all[i].contains('"'),
        still_open(st.impls, st.depth) == st.impls,
    ensures
        scan_step(all, i, st, place) == (ScanStep { items: Seq::empty(), state: st, next: i + 1 }),
{
    reveal_strlit("#[cfg(");
    reveal_strlit("#[");
    reveal_strlit("impl");
    reveal_strlit("pub");
    reveal_strlit("pub(");
    reveal_strlit("pub ");
    reveal_strlit("pub\t");
    lemma_raw_line(all[i], st.strings->hashes);
    let none = Seq::<char>::empty();
    assert(trimmed(none) == none);
    assert(!cfg_test_attr(none));
    assert(impl_type(none) is None);
    assert(!pub_use_start(none));
    assert(pub_item(none) is None);
}

/// The items of a file are placed in it: each carries the crate and the path with forward
/// slashes, and a line number of the file.
pub proof fn law_items_are_located(
    source: Seq<char>,
    crate_name: Seq<char>,
    path: Seq<char>,
    k: int,
)
    requires
        lines_of(source).len() <= u32::MAX,
        0 <= k < public_items(source, crate_name, path).len(),
    ensures
        ({
            let item = public_items(source, crate_name, path)[k];
            &&& item.crate_name == crate_name
            &&& item.path == replaced(path, '\\', '/')
            &&& !item.path.contains('\\')
            &&& item.line matches Some(n) && 1 <= n <= lines_of(source).len()
        }),
{
    let place = Place { crate_name, path };
    lemma_located_from(lines_of(source), 0, scan_start(), place, k);
    let shown = replaced(path, '\\', '/');
    assert forall|i: int| 0 <= i < shown.len() implies shown[i] != '\\' by {}
}

proof fn lemma_located_from(
    all: Seq<Seq<char>>,
    i: int,
    st: ScanState,
    place: Place,
    k: int,
)
    requires
        0 <= i,
        all.len() <= u32::MAX,
        0 <= k < items_from(all, i, st, place).len(),
    ensures
        ({
            let item = items_from(all, i, st, place)[k];
            &&& item.crate_name == place.crate_name
            &&& item.path == replaced(place.path, '\\', '/')
            &&& item.line matches Some(n) && 1 <= n <= all.len()
        }),
    decreases all.len() - i,
{
    if i < all.len() {
        let step = scan_step(all, i, st, place);
        lemma_scan_step_next(all, i, st, place);
        if k < step.items.len() {
            assert(items_from(all, i, st, place)[k] == step.items[k]);
        } else {
            lemma_located_from(all, step.next, step.state, place, k - step.items.len());
        }
    }
}

/// The items of a file come in the order of its lines.
pub proof fn law_items_come_in_line_order(
    source: Seq<char>,
    crate_name: Seq<char>,
    path: Seq<char>,
    a: int,
    b: int,
)
    requires
        lines_of(source).len() <= u32::MAX,
        0 <= a <= b < public_items(source, crate_name, path).len(),
    ensures
        ({
            let items = public_items(source, crate_name, path);
            items[a].line matches Some(m) && items[b].line matches Some(n) && m <= n
        }),
{
    let place = Place { crate_name, path };
    lemma_ordered_from(lines_of(source), 0, scan_start(), place, a, b);
}

proof fn lemma_ordered_from(
    all: Seq<Seq<char>>,
    i: int,
    st: ScanState,
    place: Place,
    a: int,
    b: int,
)
    requires
        0 <= i,
        all.len() <= u32::MAX,
        0 <= a <= b < items_from(all, i, st, place).len(),
    ensures
        ({
            let items = items_from(all, i, st, place);
            items[a].line matches Some(m) && items[b].line matches Some(n) && i < m <= n
        }),
    decreases all.len() - i,
{
    if i < all.len() {
        let step = scan_step(all, i, st, place);
        let items = items_from(all, i, st, place);
        let done = step.items.len() as int;
        lemma_scan_step_next(all, i, st, place);
        if a < done {
            assert(items[a] == step.items[a]);
        }
        if b < done {
            assert(items[b] == step.items[b]);
        } else {
            let from = if a < done {
                0
            } else {
                a - done
            };
            lemma_ordered_from(all, step.next, step.state, place, from, b - done);
            assert(items[b] == items_from(all, step.next, step.state, place)[b - done]);
            if a >= done {
                assert(items[a] == items_from(all, step.next, step.state, place)[a - done]);
            }
        }
    }
}

/// The code of a line, without the white space around it.
pub open spec fn code_of(line: Seq<char>, strings: StringState) -> Seq<char> {
    trimmed(line_scan(line, strings).code)
}

/// Whether a line is read for items: it holds code that is no attribute, no test module is being
/// skipped, and no test attribute waits for its item.
pub open spec fn reads_items(line: Seq<char>, st: ScanState) -> bool {
    let t = code_of(line, st.strings);
    st.skip <= 0 && !st.pending && t.len() > 0 && !"#["@.is_prefix_of(t)
}

proof fn lemma_trimmed_twice(s: Seq<char>)
    ensures
        trimmed(trimmed(s)) == trimmed(s),
{
    lemma_trimmed_start(s);
    let a = trimmed_start(s);
    lemma_trimmed_end(a);
    let t = trimmed(s);
    if t.len() > 0 {
        assert(t == a.subrange(0, t.len() as int));
        assert(t[0] == a[0]);
        assert(trimmed_start(t) == t);
        assert(trimmed_end(t) == t);
    }
}

proof fn lemma_cfg_is_an_attribute(code: Seq<char>)
    ensures
        cfg_test_attr(trimmed(code)) ==> "#["@.is_prefix_of(trimmed(code)),
{
    lemma_trimmed_twice(code);
    let t = trimmed(code);
    reveal_strlit("#[cfg(");
    reveal_strlit("#[");
    if cfg_test_attr(t) {
        assert("#[cfg("@ == t.subrange(0, 6));
        assert(t.subrange(0, 2) =~= "#["@) by {
            assert(t[0] == t.subrange(0, 6)[0]);
            assert(t[1] == t.subrange(0, 6)[1]);
        }
    }
}

proof fn lemma_closed_blocks(impls: Seq<(int, Seq<char>)>, depth: int)
    ensures
        ({
            let open = still_open(impls, depth);
            &&& open.len() <= impls.len()
            &&& open == impls.take(open.len() as int)
            &&& open.len() > 0 ==> open.last().0 < depth
            &&& forall|k: int| open.len() <= k < impls.len() ==> depth <= (#[trigger] impls[k]).0
        }),
    decreases impls.len(),
{
    if impls.len() > 0 && depth <= impls.last().0 {
        let rest = impls.drop_last();
        lemma_closed_blocks(rest, depth);
        let open = still_open(impls, depth);
        assert(rest.take(open.len() as int) =~= impls.take(open.len() as int));
        assert forall|k: int| open.len() <= k < impls.len() implies depth <= (
        #[trigger] impls[k]).0 by {
            if k < rest.len() {
                assert(rest[k] == impls[k]);
            }
        }
    } else {
        assert(impls.take(impls.len() as int) =~= impls);
        if impls.len() > 0 {
            assert(still_open(impls, depth).last().0 < depth);
        }
    }
}

/// An `impl` block is open exactly as long as the braces say so. After a line that was read for
/// items the innermost open block was opened at a smaller depth; what was closed by the line was
/// opened at its depth or above; the others stay as they were; and the only block that a line can
/// add is opened at the depth before it.
pub proof fn law_impl_is_open_as_long_as_its_braces(
    all: Seq<Seq<char>>,
    i: int,
    st: ScanState,
    place: Place,
)
    requires
        0 <= i < all.len(),
        reads_items(all[i], st),
    ensures
        ({
            let after = scan_step(all, i, st, place).state;
            let n = after.impls.len();
            &&& n > 0 ==> after.impls.last().0 < after.depth
            &&& forall|k: int|
                n <= k < st.impls.len() ==> after.depth <= (#[trigger] st.impls[k]).0
            &&& forall|k: int|
                0 <= k < n && k < st.impls.len() ==> (#[trigger] after.impls[k]) == st.impls[k]
            &&& n <= st.impls.len() + 1
            &&& n == st.impls.len() + 1 ==> after.impls.last().0 == st.depth
        }),
{
    let scan = line_scan(all[i], st.strings);
    let t = trimmed(scan.code);
    lemma_cfg_is_an_attribute(scan.code);
    let impls = match impl_type(t) {
        Some(ty) => st.impls.push((st.depth, ty)),
        None => st.impls,
    };
    let after = scan_step(all, i, st, place).state;
    lemma_closed_blocks(impls, after.depth);
    assert forall|k: int| after.impls.len() <= k < st.impls.len() implies after.depth <= (
    #[trigger] st.impls[k]).0 by {
        assert(impls[k] == st.impls[k]);
    }
}

/// Once the braces of every `impl` are closed none is open any more.
pub proof fn law_no_impl_outlives_its_braces(
    all: Seq<Seq<char>>,
    i: int,
    st: ScanState,
    place: Place,
)
    requires
        0 <= i < all.len(),
        reads_items(all[i], st),
        scan_step(all, i, st, place).state.depth <= st.depth,
        forall|k: int|
            0 <= k < st.impls.len() ==> scan_step(all, i, st, place).state.depth <= (
            #[trigger] st.impls[k]).0,
    ensures
        scan_step(all, i, st, place).state.impls.len() == 0,
{
    law_impl_is_open_as_long_as_its_braces(all, i, st, place);
    let after = scan_step(all, i, st, place).state;
    let n = after.impls.len();
    if n > 0 && n <= st.impls.len() {
        assert(after.impls[n - 1] == st.impls[n - 1]);
    }
}

/// A function carries the name of a type exactly where it is declared inside an `impl` of it: the
/// innermost that is open, or one that opens on the same line. Every other item, and a function
/// outside of all blocks, keeps the bare name of its declaration.
pub proof fn law_only_methods_carry_a_type(
    all: Seq<Seq<char>>,
    i: int,
    st: ScanState,
    place: Place,
    k: int,
)
    requires
        0 <= i < all.len(),
        reads_items(all[i], st),
        0 <= k < scan_step(all, i, st, place).items.len(),
        !(scan_step(all, i, st, place).items[k].kind == ItemKind::Use),
    ensures
        ({
            let t = code_of(all[i], st.strings);
            let item = scan_step(all, i, st, place).items[k];
            &&& scan_step(all, i, st, place).items.len() == 1
            &&& pub_item(t) matches Some((vis, kind, name)) && {
                &&& item.kind == kind && item.visibility == vis
                &&& kind != ItemKind::Fn ==> item.item == name
                &&& kind == ItemKind::Fn && st.impls.len() == 0 && impl_type(t) is None
                    ==> item.item == name
                &&& kind == ItemKind::Fn && st.impls.len() > 0 && impl_type(t) is None
                    ==> item.item == st.impls.last().1 + "::"@ + name
            }
        }),
{
    lemma_cfg_is_an_attribute(line_scan(all[i], st.strings).code);
}

/// A function that is declared on the line after all blocks were closed keeps its bare name.
pub proof fn law_function_after_the_block_is_free(
    all: Seq<Seq<char>>,
    i: int,
    st: ScanState,
    place: Place,
    k: int,
)
    requires
        ({
            let step = scan_step(all, i, st, place);
            let next = scan_step(all, step.next, step.state, place);
            &&& 0 <= i < all.len() && step.next < all.len()
            &&& reads_items(all[i], st)
            &&& step.state.depth <= st.depth
            &&& forall|b: int|
                0 <= b < st.impls.len() ==> step.state.depth <= (#[trigger] st.impls[b]).0
            &&& reads_items(all[step.next], step.state)
            &&& impl_type(code_of(all[step.next], step.state.strings)) is None
            &&& 0 <= k < next.items.len() && next.items[k].kind == ItemKind::Fn
        }),
    ensures
        ({
            let step = scan_step(all, i, st, place);
            let next = scan_step(all, step.next, step.state, place);
            pub_item(code_of(all[step.next], step.state.strings)) matches Some((_, _, name))
                && next.items[k].item == name
        }),
{
    let step = scan_step(all, i, st, place);
    lemma_scan_step_next(all, i, st, place);
    law_no_impl_outlives_its_braces(all, i, st, place);
    law_only_methods_carry_a_type(all, step.next, step.state, place, k);
}

/// Every public declaration on a line that is read for items is listed: one item, on that line, of
/// the kind and visibility that it declares. A line that declares nothing public lists nothing.
pub proof fn law_declarations_are_listed(
    all: Seq<Seq<char>>,
    i: int,
    st: ScanState,
    place: Place,
)
    requires
        0 <= i < all.len() <= u32::MAX,
        reads_items(all[i], st),
        !pub_use_start(code_of(all[i], st.strings)),
    ensures
        ({
            let declared = pub_item(code_of(all[i], st.strings));
            let items = scan_step(all, i, st, place).items;
            &&& declared matches Some((vis, kind, _)) ==> kind != ItemKind::Use ==> {
                &&& items.len() == 1
                &&& items[0].kind == kind && items[0].visibility == vis
                &&& items[0].line == Some((i + 1) as u32)
            }
            &&& declared is None ==> items.len() == 0
            &&& scan_step(all, i, st, place).next == i + 1
        }),
{
    lemma_cfg_is_an_attribute(line_scan(all[i], st.strings).code);
}

/// The imports of a public re-export are listed one by one, on the line where the statement begins.
pub proof fn law_imports_are_listed(
    all: Seq<Seq<char>>,
    i: int,
    st: ScanState,
    place: Place,
    k: int,
)
    requires
        0 <= i < all.len() <= u32::MAX,
        reads_items(all[i], st),
        pub_use_start(code_of(all[i], st.strings)),
        complete_from(code_of(all[i], st.strings), 0),
        pub_use_statement(code_of(all[i], st.strings)) matches Some((_, names)) && 0 <= k
            < names.len(),
    ensures
        ({
            let items = scan_step(all, i, st, place).items;
            &&& pub_use_statement(code_of(all[i], st.strings)) matches Some((vis, names))
            &&& items.len() == names.len()
            &&& items[k].item == names[k] && items[k].kind == ItemKind::Use
            &&& items[k].visibility == vis && items[k].line == Some((i + 1) as u32)
        }),
{
    lemma_cfg_is_an_attribute(line_scan(all[i], st.strings).code);
}

/// A test module is skipped from the line that opens it until its braces are closed, and the depth
/// goes on being counted meanwhile.
pub proof fn law_test_module_is_skipped_to_its_end(
    all: Seq<Seq<char>>,
    i: int,
    st: ScanState,
    place: Place,
)
    requires
        0 <= i < all.len(),
    ensures
        ({
            let step = scan_step(all, i, st, place);
            let net = line_scan(all[i], st.strings).net;
            let t = code_of(all[i], st.strings);
            let opens = st.skip <= 0 && st.pending && line_scan(all[i], st.strings).state is Code
                && "mod "@.is_prefix_of(t) && t.contains('{');
            &&& st.skip > 0 ==> step.items.len() == 0 && step.state.depth == st.depth + net
            &&& st.skip > 0 && st.skip + net > 0 ==> step.state.skip == st.skip + net
            &&& st.skip > 0 && st.skip + net <= 0 ==> step.state.skip == 0
            &&& opens ==> step.items.len() == 0 && step.state.skip >= 1 && !step.state.pending
                && (net >= 1 ==> step.state.skip == net) && step.state.depth == st.depth + net
            &&& st.skip <= 0 && cfg_test_attr(t) ==> step.state.pending && step.items.len() == 0
        }),
{
    reveal_strlit("mod ");
    reveal_strlit("#[");
    lemma_cfg_is_an_attribute(line_scan(all[i], st.strings).code);
    let t = code_of(all[i], st.strings);
    if "mod "@.is_prefix_of(t) {
        assert("mod "@ == t.subrange(0, 4));
        assert(t[0] == t.subrange(0, 4)[0]);
        if "#["@.is_prefix_of(t) {
            assert("#["@ == t.subrange(0, 2));
            assert(t[0] == t.subrange(0, 2)[0]);
        }
    }
    if cfg_test_attr(t) {
        reveal_strlit("#[cfg(");
        lemma_trimmed_twice(line_scan(all[i], st.strings).code);
    }
}

/// Whether a text is code throughout: it holds no quote and no `//`.
pub open spec fn plain_code(s: Seq<char>) -> bool {
    &&& forall|k: int| 0 <= k < s.len() ==> (#[trigger] s[k]) != '"'
    &&& forall|k: int| 0 <= k < s.len() - 1 ==> !((#[trigger] s[k]) == '/' && s[k + 1] == '/')
}

/// The opening braces of a text less its closing ones.
pub open spec fn braces(s: Seq<char>) -> int {
    s.filter(|c: char| c == '{').len() - s.filter(|c: char| c == '}').len()
}

proof fn lemma_braces_head(s: Seq<char>)
    requires
        s.len() > 0,
    ensures
        braces(s) == brace_step(s[0]) + braces(s.skip(1)),
{
    let first = seq![s[0]];
    let opening = |c: char| c == '{';
    let closing = |c: char| c == '}';
    assert(s =~= first + s.skip(1));
    Seq::filter_distributes_over_add(first, s.skip(1), opening);
    Seq::filter_distributes_over_add(first, s.skip(1), closing);
    reveal_with_fuel(Seq::filter, 2);
    assert(first.drop_last() =~= Seq::<char>::empty());
    assert(first.filter(opening) =~= (if s[0] == '{' {
        first
    } else {
        Seq::empty()
    }));
    assert(first.filter(closing) =~= (if s[0] == '}' {
        first
    } else {
        Seq::empty()
    }));
}

/// Code is read as it stands: a line without quotes and comments is all code, and changes the depth
/// by its opening braces less its closing ones. What follows `//` is left out.
pub proof fn law_code_is_read_and_comments_are_not(code: Seq<char>, comment: Seq<char>)
    requires
        plain_code(code),
    ensures
        line_scan(code, StringState::Code) == (LineScan {
            code,
            net: braces(code),
            state: StringState::Code,
        }),
        code.len() == 0 || code.last() != '/' ==> line_scan(
            code + "//"@ + comment,
            StringState::Code,
        ) == (LineScan { code, net: braces(code), state: StringState::Code }),
    decreases code.len(),
{
    reveal_strlit("//");
    let whole = code + "//"@ + comment;
    if code.len() == 0 {
        assert(braces(code) == 0) by {
            reveal_with_fuel(Seq::filter, 1);
        }
        assert(code =~= Seq::empty());
        assert(whole[0] == '/' && whole[1] == '/');
    } else {
        let rest = code.skip(1);
        assert forall|k: int| 0 <= k < rest.len() implies (#[trigger] rest[k]) != '"' by {
            assert(rest[k] == code[k + 1]);
        }
        assert forall|k: int| 0 <= k < rest.len() - 1 implies !((#[trigger] rest[k]) == '/'
            && rest[k + 1] == '/') by {
            assert(rest[k] == code[k + 1]);
            assert(rest[k + 1] == code[k + 2]);
        }
        if rest.len() > 0 {
            assert(rest.last() == code.last());
        }
        law_code_is_read_and_comments_are_not(rest, comment);
        lemma_braces_head(code);
        lemma_hash_run(code.skip(1));
        assert(code[0] != '"');
        assert(!opens_raw(code)) by {
            let h = hash_run(code.skip(1)) as int;
            if 1 + h < code.len() {
                assert(code[1 + h] != '"');
            }
        }
        assert(seq![code[0]] + rest =~= code);
        if code.len() > 1 {
            assert(!(code[0] == '/' && code[1] == '/'));
        }
        if code.last() != '/' {
            assert(whole[0] == code[0]);
            assert(whole.skip(1) =~= rest + "//"@ + comment);
            lemma_hash_run(whole.skip(1));
            let h = hash_run(whole.skip(1)) as int;
            assert(!opens_raw(whole)) by {
                if 1 + h < whole.len() && whole[1 + h] == '"' {
                    if 1 + h < code.len() {
                        assert(whole[1 + h] == code[1 + h]);
                    } else {
                        let at = code.len() - 1;
                        assert(at < h);
                        assert(whole.skip(1)[at] == whole[at + 1]);
                        assert(whole[code.len() as int] == '/');
                    }
                }
            }
            assert(!(whole[0] == '/' && whole[1] == '/')) by {
                if code.len() > 1 {
                    assert(whole[1] == code[1]);
                }
            }
        }
    }
}

/// What stands in a string literal is no code: a line that begins inside one is left out up to the
/// closing quote, and goes on as code behind it; without a closing quote the string goes on on the
/// next line.
pub proof fn law_string_literals_are_not_code(text: Seq<char>, behind: Seq<char>)
    requires
        forall|k: int| 0 <= k < text.len() ==> (#[trigger] text[k]) != '"' && text[k] != '\\',
    ensures
        line_scan(text, StringState::NormalStr) == (LineScan {
            code: Seq::empty(),
            net: 0,
            state: StringState::NormalStr,
        }),
        line_scan(text + "\""@ + behind, StringState::NormalStr) == line_scan(
            behind,
            StringState::Code,
        ),
    decreases text.len(),
{
    reveal_strlit("\"");
    let whole = text + "\""@ + behind;
    if text.len() == 0 {
        assert(whole[0] == '"');
        assert(whole.skip(1) =~= behind);
    } else {
        let rest = text.skip(1);
        assert forall|k: int| 0 <= k < rest.len() implies (#[trigger] rest[k]) != '"' && rest[k]
            != '\\' by {
            assert(rest[k] == text[k + 1]);
        }
        law_string_literals_are_not_code(rest, behind);
        assert(text[0] != '"' && text[0] != '\\');
        assert(whole[0] == text[0]);
        assert(whole.skip(1) =~= rest + "\""@ + behind);
    }
}

/// The inventory of a text is read from its first line on: what that line declares comes first, on
/// line one.
pub proof fn law_inventory_begins_at_the_first_line(
    source: Seq<char>,
    crate_name: Seq<char>,
    path: Seq<char>,
)
    requires
        0 < lines_of(source).len() <= u32::MAX,
        reads_items(lines_of(source)[0], scan_start()),
        !pub_use_start(code_of(lines_of(source)[0], scan_start().strings)),
    ensures
        pub_item(code_of(lines_of(source)[0], scan_start().strings)) matches Some((vis, kind, _))
            ==> kind != ItemKind::Use ==> {
            let items = public_items(source, crate_name, path);
            &&& items.len() > 0
            &&& items[0].kind == kind && items[0].visibility == vis
            &&& items[0].line == Some(1u32)
        },
{
    law_declarations_are_listed(lines_of(source), 0, scan_start(), Place { crate_name, path });
}

/// No line is passed over: the items from a line on are those that reading it gives, and those from
/// the line on where reading goes on.
pub proof fn law_no_line_is_passed_over(
    all: Seq<Seq<char>>,
    i: int,
    st: ScanState,
    place: Place,
)
    requires
        0 <= i < all.len(),
    ensures
        ({
            let items = items_from(all, i, st, place);
            let step = scan_step(all, i, st, place);
            let rest = items_from(all, step.next, step.state, place);
            &&& items.len() == step.items.len() + rest.len()
            &&& step.items.is_prefix_of(items)
            &&& rest.is_suffix_of(items)
        }),
{
    let items = items_from(all, i, st, place);
    let step = scan_step(all, i, st, place);
    let rest = items_from(all, step.next, step.state, place);
    assert(items == step.items + rest);
    assert(items.subrange(0, step.items.len() as int) =~= step.items);
    assert(items.subrange(items.len() - rest.len(), items.len() as int) =~= rest);
}

} // verus!
