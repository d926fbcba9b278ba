use vstd::prelude::*;
use crate::syntax::{Item, RawField, SourceFile, Span, StructKind, TypeRef};

verus! {

// ---------------------------------------------------------------------------
// Lexical specification helpers.
// ---------------------------------------------------------------------------

pub open spec fn is_ident_byte(c: u8) -> bool {
    (97u8 <= c && c <= 122u8) || (65u8 <= c && c <= 90u8) || (48u8 <= c && c <= 57u8) || c == 95u8
}

pub open spec fn all_ident(s: Seq<u8>, a: int, b: int) -> bool {
    forall|i: int| a <= i < b ==> is_ident_byte(#[trigger] s[i])
}

/// `e` is the end of the maximal identifier run that starts at `a` in `s`.
pub open spec fn ident_run(s: Seq<u8>, a: int, e: int) -> bool {
    a <= e <= s.len() && all_ident(s, a, e) && (e == s.len() || !is_ident_byte(s[e]))
}

pub open spec fn no_byte(s: Seq<u8>, a: int, b: int, ch: u8) -> bool {
    forall|i: int| a <= i < b ==> #[trigger] s[i] != ch
}

/// `c` is the first occurrence of `ch` in `s[a..b)`.
pub open spec fn first_at(s: Seq<u8>, a: int, b: int, ch: u8, c: int) -> bool {
    a <= c < b && b <= s.len() && s[c] == ch && no_byte(s, a, c, ch)
}

pub proof fn lemma_first_at_unique(s: Seq<u8>, a: int, b: int, ch: u8, c1: int, c2: int)
    requires
        first_at(s, a, b, ch, c1),
        first_at(s, a, b, ch, c2),
    ensures
        c1 == c2,
{
    if c1 < c2 {
        assert(s[c1] != ch);
    }
    if c2 < c1 {
        assert(s[c2] != ch);
    }
}

// ---------------------------------------------------------------------------
// The grammar, as a relation between a line of text and the parsed item.
// ---------------------------------------------------------------------------

/// Classification of one type annotation `s[a..b)`.
pub open spec fn tr_rel(s: Seq<u8>, a: int, b: int, tr: TypeRef) -> bool {
    if a >= b {
        tr matches TypeRef::Error
    } else if b - a == 2 && s[a] == 40u8 && s[a + 1] == 41u8 {
        tr matches TypeRef::Empty
    } else if b - a == 1 && s[a] == 33u8 {
        tr matches TypeRef::Never
    } else if all_ident(s, a, b) {
        tr matches TypeRef::Path(p) && p@ == s.subrange(a, b)
    } else {
        tr matches TypeRef::Error
    }
}

/// One field or parameter `s[a..b)`; a named field is `name:type`.
pub open spec fn field_rel(s: Seq<u8>, a: int, b: int, named: bool, line: int, f: RawField) -> bool {
    if named {
        if exists|c: int| #[trigger] first_at(s, a, b, 58u8, c) {
            let c = choose|c: int| #[trigger] first_at(s, a, b, 58u8, c);
            &&& f.name@ == s.subrange(a, c)
            &&& tr_rel(s, c + 1, b, f.type_ref)
            &&& f.span.line as int == line
            &&& f.span.start as int == c + 1
            &&& f.span.len as int == b - c - 1
        } else {
            &&& f.name@ == Seq::<u8>::empty()
            &&& f.type_ref matches TypeRef::Error
            &&& f.span.line as int == line
            &&& f.span.start as int == a
            &&& f.span.len as int == b - a
        }
    } else {
        &&& f.name@ == Seq::<u8>::empty()
        &&& tr_rel(s, a, b, f.type_ref)
        &&& f.span.line as int == line
        &&& f.span.start as int == a
        &&& f.span.len as int == b - a
    }
}

/// A nonempty comma-separated field list filling `s[a..b)`.
pub open spec fn fields_rel(s: Seq<u8>, a: int, b: int, named: bool, line: int, fs: Seq<RawField>) -> bool
    decreases b - a when a <= b
{
    if exists|c: int| #[trigger] first_at(s, a, b, 44u8, c) {
        let c = choose|c: int| #[trigger] first_at(s, a, b, 44u8, c);
        &&& fs.len() >= 1
        &&& field_rel(s, a, c, named, line, fs[0])
        &&& fields_rel(s, c + 1, b, named, line, fs.skip(1))
    } else {
        fs.len() == 1 && field_rel(s, a, b, named, line, fs[0])
    }
}

/// A possibly empty delimited interior `s[a..b)`.
pub open spec fn interior_rel(s: Seq<u8>, a: int, b: int, named: bool, line: int, fs: Seq<RawField>) -> bool {
    if a == b {
        fs.len() == 0
    } else {
        fields_rel(s, a, b, named, line, fs)
    }
}

pub open spec fn kw_struct() -> Seq<u8> {
    seq![115u8, 116u8, 114u8, 117u8, 99u8, 116u8, 32u8]
}

pub open spec fn kw_type() -> Seq<u8> {
    seq![116u8, 121u8, 112u8, 101u8, 32u8]
}

pub open spec fn kw_fn() -> Seq<u8> {
    seq![102u8, 110u8, 32u8]
}

pub open spec fn kw_extern_fn() -> Seq<u8> {
    seq![101u8, 120u8, 116u8, 101u8, 114u8, 110u8, 32u8, 102u8, 110u8, 32u8]
}

pub open spec fn has_prefix(s: Seq<u8>, p: Seq<u8>) -> bool {
    s.len() >= p.len() && s.subrange(0, p.len() as int) == p
}

pub open spec fn full_span(line: Seq<u8>, lineno: int, sp: Span) -> bool {
    sp.line as int == lineno && sp.start as int == 0 && sp.len as int == line.len()
}

pub open spec fn err_item(line: Seq<u8>, lineno: int, item: Item) -> bool {
    item matches Item::ErrorItem { span } && full_span(line, lineno, span)
}

pub open spec fn struct_rel_at(line: Seq<u8>, e: int, lineno: int, item: Item) -> bool {
    let len = line.len() as int;
    if e == 7 {
        err_item(line, lineno, item)
    } else if e == len {
        item matches Item::StructItem { name, kind, fields, span }
            && name@ == line.subrange(7, e) && kind == StructKind::Unit && fields@.len() == 0
            && full_span(line, lineno, span)
    } else if line[e] == 40u8 && line[len - 1] == 41u8 {
        item matches Item::StructItem { name, kind, fields, span }
            && name@ == line.subrange(7, e) && kind == StructKind::Tuple
            && interior_rel(line, e + 1, len - 1, false, lineno, fields@)
            && full_span(line, lineno, span)
    } else if line[e] == 123u8 && line[len - 1] == 125u8 {
        item matches Item::StructItem { name, kind, fields, span }
            && name@ == line.subrange(7, e) && kind == StructKind::Record
            && interior_rel(line, e + 1, len - 1, true, lineno, fields@)
            && full_span(line, lineno, span)
    } else {
        err_item(line, lineno, item)
    }
}

pub open spec fn struct_rel(line: Seq<u8>, lineno: int, item: Item) -> bool {
    exists|e: int| #[trigger] ident_run(line, 7, e) && struct_rel_at(line, e, lineno, item)
}

pub open spec fn alias_rel_at(line: Seq<u8>, e: int, lineno: int, item: Item) -> bool {
    let len = line.len() as int;
    if e == 5 {
        err_item(line, lineno, item)
    } else if e < len && line[e] == 61u8 {
        item matches Item::AliasItem { name, type_ref, ty_span, span }
            && name@ == line.subrange(5, e) && tr_rel(line, e + 1, len, type_ref)
            && ty_span.line as int == lineno && ty_span.start as int == e + 1
            && ty_span.len as int == len - e - 1
            && full_span(line, lineno, span)
    } else {
        err_item(line, lineno, item)
    }
}

pub open spec fn alias_rel(line: Seq<u8>, lineno: int, item: Item) -> bool {
    exists|e: int| #[trigger] ident_run(line, 5, e) && alias_rel_at(line, e, lineno, item)
}

/// The part of a function line after the closing parenthesis at `c`:
/// an optional `->type` and an optional `{body}` running to the line's end.
pub open spec fn fn_tail_rel(
    line: Seq<u8>,
    k: int,
    e: int,
    c: int,
    is_ext: bool,
    lineno: int,
    item: Item,
) -> bool {
    let len = line.len() as int;
    let bstart = if exists|bp: int| #[trigger] first_at(line, c + 1, len, 123u8, bp) {
        choose|bp: int| #[trigger] first_at(line, c + 1, len, 123u8, bp)
    } else {
        len
    };
    if bstart < len && line[len - 1] != 125u8 {
        err_item(line, lineno, item)
    } else if bstart == c + 1 {
        item matches Item::FnItem { name, is_extern, params, ret, ret_span, has_body, span }
            && name@ == line.subrange(k, e) && is_extern == is_ext
            && interior_rel(line, e + 1, c, false, lineno, params@)
            && (ret matches TypeRef::Empty)
            && ret_span.line as int == lineno && ret_span.start as int == bstart
            && ret_span.len as int == 0
            && has_body == (bstart < len)
            && full_span(line, lineno, span)
    } else if bstart >= c + 3 && line[c + 1] == 45u8 && line[c + 2] == 62u8 {
        item matches Item::FnItem { name, is_extern, params, ret, ret_span, has_body, span }
            && name@ == line.subrange(k, e) && is_extern == is_ext
            && interior_rel(line, e + 1, c, false, lineno, params@)
            && tr_rel(line, c + 3, bstart, ret)
            && ret_span.line as int == lineno && ret_span.start as int == c + 3
            && ret_span.len as int == bstart - c - 3
            && has_body == (bstart < len)
            && full_span(line, lineno, span)
    } else {
        err_item(line, lineno, item)
    }
}

pub open spec fn fn_rel_at(line: Seq<u8>, k: int, e: int, is_ext: bool, lineno: int, item: Item) -> bool {
    let len = line.len() as int;
    if e == k || e == len || line[e] != 40u8 {
        err_item(line, lineno, item)
    } else if exists|c: int| #[trigger] first_at(line, e + 1, len, 41u8, c) {
        let c = choose|c: int| #[trigger] first_at(line, e + 1, len, 41u8, c);
        fn_tail_rel(line, k, e, c, is_ext, lineno, item)
    } else {
        err_item(line, lineno, item)
    }
}

pub open spec fn fn_rel(line: Seq<u8>, k: int, is_ext: bool, lineno: int, item: Item) -> bool {
    exists|e: int| #[trigger] ident_run(line, k, e) && fn_rel_at(line, k, e, is_ext, lineno, item)
}

/// The whole grammar for one nonempty line.
pub open spec fn item_rel(line: Seq<u8>, lineno: int, item: Item) -> bool {
    if has_prefix(line, kw_struct()) {
        struct_rel(line, lineno, item)
    } else if has_prefix(line, kw_type()) {
        alias_rel(line, lineno, item)
    } else if has_prefix(line, kw_extern_fn()) {
        fn_rel(line, 10, true, lineno, item)
    } else if has_prefix(line, kw_fn()) {
        fn_rel(line, 3, false, lineno, item)
    } else {
        err_item(line, lineno, item)
    }
}

/// A whole text: one item per nonempty line; empty lines are skipped; parsing
/// never fails, so every line yields an item (possibly an error item).
pub open spec fn items_rel(text: Seq<u8>, lineno: int, items: Seq<Item>) -> bool
    decreases text.len(),
{
    if text.len() == 0 {
        items.len() == 0
    } else {
        let n = if exists|c: int| #[trigger] first_at(text, 0, text.len() as int, 10u8, c) {
            choose|c: int| #[trigger] first_at(text, 0, text.len() as int, 10u8, c)
        } else {
            text.len() as int
        };
        let rest = if n == text.len() as int {
            Seq::<u8>::empty()
        } else {
            text.subrange(n + 1, text.len() as int)
        };
        if n == 0 {
            items_rel(rest, lineno + 1, items)
        } else {
            &&& items.len() >= 1
            &&& item_rel(text.subrange(0, n), lineno, items[0])
            &&& items_rel(rest, lineno + 1, items.skip(1))
        }
    }
}

pub open spec fn parse_rel(text: Seq<u8>, sf: SourceFile) -> bool {
    items_rel(text, 0, sf.items@)
}

// ---------------------------------------------------------------------------
// The executable parser.
// ---------------------------------------------------------------------------

/// First occurrence of `ch` in `v[from..to)`.
pub fn find_byte(v: &Vec<u8>, from: usize, to: usize, ch: u8) -> (r: Option<usize>)
    requires
        from <= to <= v@.len(),
    ensures
        match r {
            Some(c) => first_at(v@, from as int, to as int, ch, c as int),
            None => no_byte(v@, from as int, to as int, ch),
        },
{
    let mut i: usize = from;
    while i < to
        invariant
            from <= i <= to <= v@.len(),
            no_byte(v@, from as int, i as int, ch),
        decreases to - i,
    {
        if v[i] == ch {
            return Some(i);
        }
        i += 1;
    }
    None
}

/// End of the maximal identifier run starting at `from`.
pub fn ident_end(v: &Vec<u8>, from: usize) -> (e: usize)
    requires
        from <= v@.len(),
    ensures
        ident_run(v@, from as int, e as int),
{
    let mut i: usize = from;
    while i < v.len()
        invariant
            from <= i <= v@.len(),
            all_ident(v@, from as int, i as int),
        decreases v@.len() - i,
    {
        let c = v[i];
        if !((97u8 <= c && c <= 122u8) || (65u8 <= c && c <= 90u8) || (48u8 <= c && c <= 57u8)
            || c == 95u8) {
            return i;
        }
        i += 1;
    }
    i
}

/// Copy of the byte range `v[a..b)`.
pub fn bytes_sub(v: &Vec<u8>, a: usize, b: usize) -> (r: Vec<u8>)
    requires
        a <= b <= v@.len(),
    ensures
        r@ == v@.subrange(a as int, b as int),
{
    let mut out: Vec<u8> = Vec::new();
    let mut i: usize = a;
    while i < b
        invariant
            a <= i <= b <= v@.len(),
            out@ =~= v@.subrange(a as int, i as int),
        decreases b - i,
    {
        out.push(v[i]);
        i += 1;
    }
    proof {
        assert(out@ =~= v@.subrange(a as int, b as int));
    }
    out
}

fn all_ident_exec(v: &Vec<u8>, a: usize, b: usize) -> (r: bool)
    requires
        a <= b <= v@.len(),
    ensures
        r == all_ident(v@, a as int, b as int),
{
    let mut i: usize = a;
    while i < b
        invariant
            a <= i <= b <= v@.len(),
            all_ident(v@, a as int, i as int),
        decreases b - i,
    {
        let c = v[i];
        if !((97u8 <= c && c <= 122u8) || (65u8 <= c && c <= 90u8) || (48u8 <= c && c <= 57u8)
            || c == 95u8) {
            return false;
        }
        i += 1;
    }
    true
}

/// Total classification of one type annotation.
pub fn classify_type(v: &Vec<u8>, a: usize, b: usize) -> (tr: TypeRef)
    requires
        a <= b <= v@.len(),
    ensures
        tr_rel(v@, a as int, b as int, tr),
{
    if a >= b {
        TypeRef::Error
    } else if b - a == 2 && v[a] == 40u8 && v[a + 1] == 41u8 {
        TypeRef::Empty
    } else if b - a == 1 && v[a] == 33u8 {
        TypeRef::Never
    } else if all_ident_exec(v, a, b) {
        TypeRef::Path(bytes_sub(v, a, b))
    } else {
        TypeRef::Error
    }
}

fn parse_field(v: &Vec<u8>, a: usize, b: usize, named: bool, lineno: usize) -> (f: RawField)
    requires
        a <= b <= v@.len(),
    ensures
        field_rel(v@, a as int, b as int, named, lineno as int, f),
{
    if named {
        match find_byte(v, a, b, 58u8) {
            Some(c) => {
                proof {
                    let cw = choose|x: int| #[trigger] first_at(v@, a as int, b as int, 58u8, x);
                    lemma_first_at_unique(v@, a as int, b as int, 58u8, cw, c as int);
                }
                RawField {
                    name: bytes_sub(v, a, c),
                    type_ref: classify_type(v, c + 1, b),
                    span: Span { line: lineno, start: c + 1, len: b - c - 1 },
                }
            },
            None => {
                proof {
                    if exists|x: int| #[trigger] first_at(v@, a as int, b as int, 58u8, x) {
                        let x = choose|x: int| #[trigger] first_at(v@, a as int, b as int, 58u8, x);
                        assert(v@[x] != 58u8);
                    }
                }
                RawField {
                    name: Vec::new(),
                    type_ref: TypeRef::Error,
                    span: Span { line: lineno, start: a, len: b - a },
                }
            },
        }
    } else {
        RawField {
            name: Vec::new(),
            type_ref: classify_type(v, a, b),
            span: Span { line: lineno, start: a, len: b - a },
        }
    }
}

fn parse_fields(v: &Vec<u8>, a: usize, b: usize, named: bool, lineno: usize) -> (fs: Vec<RawField>)
    requires
        a <= b <= v@.len(),
    ensures
        fields_rel(v@, a as int, b as int, named, lineno as int, fs@),
    decreases b - a,
{
    match find_byte(v, a, b, 44u8) {
        Some(c) => {
            proof {
                let cw = choose|x: int| #[trigger] first_at(v@, a as int, b as int, 44u8, x);
                lemma_first_at_unique(v@, a as int, b as int, 44u8, cw, c as int);
            }
            let f0 = parse_field(v, a, c, named, lineno);
            let mut rest = parse_fields(v, c + 1, b, named, lineno);
            let ghost r0 = rest@;
            let mut out: Vec<RawField> = Vec::new();
            out.push(f0);
            out.append(&mut rest);
            proof {
                assert(out@.skip(1) =~= r0);
            }
            out
        },
        None => {
            proof {
                if exists|x: int| #[trigger] first_at(v@, a as int, b as int, 44u8, x) {
                    let x = choose|x: int| #[trigger] first_at(v@, a as int, b as int, 44u8, x);
                    assert(v@[x] != 44u8);
                }
            }
            let f0 = parse_field(v, a, b, named, lineno);
            let mut out: Vec<RawField> = Vec::new();
            out.push(f0);
            out
        },
    }
}

fn parse_interior(v: &Vec<u8>, a: usize, b: usize, named: bool, lineno: usize) -> (fs: Vec<RawField>)
    requires
        a <= b <= v@.len(),
    ensures
        interior_rel(v@, a as int, b as int, named, lineno as int, fs@),
{
    if a == b {
        Vec::new()
    } else {
        parse_fields(v, a, b, named, lineno)
    }
}

fn starts_with(v: &Vec<u8>, p: &Vec<u8>) -> (r: bool)
    ensures
        r == has_prefix(v@, p@),
{
    if v.len() < p.len() {
        return false;
    }
    let mut i: usize = 0;
    while i < p.len()
        invariant
            0 <= i <= p@.len() <= v@.len(),
            forall|j: int| 0 <= j < i ==> v@[j] == p@[j],
        decreases p@.len() - i,
    {
        if v[i] != p[i] {
            proof {
                assert(v@.subrange(0, p@.len() as int)[i as int] != p@[i as int]);
            }
            return false;
        }
        i += 1;
    }
    proof {
        assert(v@.subrange(0, p@.len() as int) =~= p@);
    }
    true
}

fn kw_struct_vec() -> (r: Vec<u8>)
    ensures
        r@ == kw_struct(),
{
    let mut v: Vec<u8> = Vec::new();
    v.push(115u8);
    v.push(116u8);
    v.push(114u8);
    v.push(117u8);
    v.push(99u8);
    v.push(116u8);
    v.push(32u8);
    proof {
        assert(v@ =~= kw_struct());
    }
    v
}

fn kw_type_vec() -> (r: Vec<u8>)
    ensures
        r@ == kw_type(),
{
    let mut v: Vec<u8> = Vec::new();
    v.push(116u8);
    v.push(121u8);
    v.push(112u8);
    v.push(101u8);
    v.push(32u8);
    proof {
        assert(v@ =~= kw_type());
    }
    v
}

fn kw_fn_vec() -> (r: Vec<u8>)
    ensures
        r@ == kw_fn(),
{
    let mut v: Vec<u8> = Vec::new();
    v.push(102u8);
    v.push(110u8);
    v.push(32u8);
    proof {
        assert(v@ =~= kw_fn());
    }
    v
}

fn kw_extern_fn_vec() -> (r: Vec<u8>)
    ensures
        r@ == kw_extern_fn(),
{
    let mut v: Vec<u8> = Vec::new();
    v.push(101u8);
    v.push(120u8);
    v.push(116u8);
    v.push(101u8);
    v.push(114u8);
    v.push(110u8);
    v.push(32u8);
    v.push(102u8);
    v.push(110u8);
    v.push(32u8);
    proof {
        assert(v@ =~= kw_extern_fn());
    }
    v
}

fn parse_struct_line(v: &Vec<u8>, lineno: usize) -> (item: Item)
    requires
        v@.len() >= 7,
    ensures
        struct_rel(v@, lineno as int, item),
{
    let len = v.len();
    let full = Span { line: lineno, start: 0, len };
    let e = ident_end(v, 7);
    let item = if e == 7 {
        Item::ErrorItem { span: full }
    } else if e == len {
        Item::StructItem {
            name: bytes_sub(v, 7, e),
            kind: StructKind::Unit,
            fields: Vec::new(),
            span: full,
        }
    } else if v[e] == 40u8 && v[len - 1] == 41u8 {
        Item::StructItem {
            name: bytes_sub(v, 7, e),
            kind: StructKind::Tuple,
            fields: parse_interior(v, e + 1, len - 1, false, lineno),
            span: full,
        }
    } else if v[e] == 123u8 && v[len - 1] == 125u8 {
        Item::StructItem {
            name: bytes_sub(v, 7, e),
            kind: StructKind::Record,
            fields: parse_interior(v, e + 1, len - 1, true, lineno),
            span: full,
        }
    } else {
        Item::ErrorItem { span: full }
    };
    proof {
        assert(struct_rel_at(v@, e as int, lineno as int, item));
    }
    item
}

fn parse_alias_line(v: &Vec<u8>, lineno: usize) -> (item: Item)
    requires
        v@.len() >= 5,
    ensures
        alias_rel(v@, lineno as int, item),
{
    let len = v.len();
    let full = Span { line: lineno, start: 0, len };
    let e = ident_end(v, 5);
    let item = if e == 5 {
        Item::ErrorItem { span: full }
    } else if e < len && v[e] == 61u8 {
        Item::AliasItem {
            name: bytes_sub(v, 5, e),
            type_ref: classify_type(v, e + 1, len),
            ty_span: Span { line: lineno, start: e + 1, len: len - e - 1 },
            span: full,
        }
    } else {
        Item::ErrorItem { span: full }
    };
    proof {
        assert(alias_rel_at(v@, e as int, lineno as int, item));
    }
    item
}

fn parse_fn_line(v: &Vec<u8>, k: usize, is_ext: bool, lineno: usize) -> (item: Item)
    requires
        k <= v@.len(),
    ensures
        fn_rel(v@, k as int, is_ext, lineno as int, item),
{
    let len = v.len();
    let full = Span { line: lineno, start: 0, len };
    let e = ident_end(v, k);
    if e == k || e == len || v[e] != 40u8 {
        let item = Item::ErrorItem { span: full };
        proof {
            assert(fn_rel_at(v@, k as int, e as int, is_ext, lineno as int, item));
        }
        return item;
    }
    match find_byte(v, e + 1, len, 41u8) {
        None => {
            let item = Item::ErrorItem { span: full };
            proof {
                if exists|x: int| #[trigger] first_at(v@, e + 1, len as int, 41u8, x) {
                    let x = choose|x: int| #[trigger] first_at(v@, e + 1, len as int, 41u8, x);
                    assert(v@[x] != 41u8);
                }
                assert(fn_rel_at(v@, k as int, e as int, is_ext, lineno as int, item));
            }
            item
        },
        Some(c) => {
            proof {
                let cw = choose|x: int| #[trigger] first_at(v@, e + 1, len as int, 41u8, x);
                lemma_first_at_unique(v@, e + 1, len as int, 41u8, cw, c as int);
            }
            let bstart = match find_byte(v, c + 1, len, 123u8) {
                Some(bp) => {
                    proof {
                        let bw = choose|x: int| #[trigger] first_at(v@, c + 1, len as int, 123u8, x);
                        lemma_first_at_unique(v@, c + 1, len as int, 123u8, bw, bp as int);
                    }
                    bp
                },
                None => {
                    proof {
                        if exists|x: int| #[trigger] first_at(v@, c + 1, len as int, 123u8, x) {
                            let x = choose|x: int| #[trigger] first_at(v@, c + 1, len as int, 123u8, x);
                            assert(v@[x] != 123u8);
                        }
                    }
                    len
                },
            };
            let has_body = bstart < len;
            let item = if has_body && v[len - 1] != 125u8 {
                Item::ErrorItem { span: full }
            } else if bstart == c + 1 {
                Item::FnItem {
                    name: bytes_sub(v, k, e),
                    is_extern: is_ext,
                    params: parse_interior(v, e + 1, c, false, lineno),
                    ret: TypeRef::Empty,
                    ret_span: Span { line: lineno, start: bstart, len: 0 },
                    has_body,
                    span: full,
                }
            } else if bstart - c >= 3 && v[c + 1] == 45u8 && v[c + 2] == 62u8 {
                Item::FnItem {
                    name: bytes_sub(v, k, e),
                    is_extern: is_ext,
                    params: parse_interior(v, e + 1, c, false, lineno),
                    ret: classify_type(v, c + 3, bstart),
                    ret_span: Span { line: lineno, start: c + 3, len: bstart - c - 3 },
                    has_body,
                    span: full,
                }
            } else {
                Item::ErrorItem { span: full }
            };
            proof {
                assert(fn_tail_rel(v@, k as int, e as int, c as int, is_ext, lineno as int, item));
                assert(fn_rel_at(v@, k as int, e as int, is_ext, lineno as int, item));
            }
            item
        },
    }
}

/// Parse one nonempty line into an item; total, with error recovery.
pub fn parse_line(v: &Vec<u8>, lineno: usize) -> (item: Item)
    ensures
        item_rel(v@, lineno as int, item),
{
    let ks = kw_struct_vec();
    let kt = kw_type_vec();
    let kef = kw_extern_fn_vec();
    let kf = kw_fn_vec();
    if starts_with(v, &ks) {
        parse_struct_line(v, lineno)
    } else if starts_with(v, &kt) {
        parse_alias_line(v, lineno)
    } else if starts_with(v, &kef) {
        parse_fn_line(v, 10, true, lineno)
    } else if starts_with(v, &kf) {
        parse_fn_line(v, 3, false, lineno)
    } else {
        Item::ErrorItem { span: Span { line: lineno, start: 0, len: v.len() } }
    }
}

fn parse_from(text: &Vec<u8>, pos: usize, lineno: usize) -> (items: Vec<Item>)
    requires
        pos <= text@.len(),
        lineno + text@.len() - pos <= usize::MAX,
    ensures
        items_rel(text@.skip(pos as int), lineno as int, items@),
    decreases text@.len() - pos,
{
    let ghost s = text@.skip(pos as int);
    if pos == text.len() {
        let out: Vec<Item> = Vec::new();
        proof {
            assert(s.len() == 0);
        }
        out
    } else {
        let n = match find_byte(text, pos, text.len(), 10u8) {
            Some(c) => {
                proof {
                    assert forall|j: int| 0 <= j < s.len() implies s[j] == text@[pos + j] by {}
                    assert(first_at(s, 0, s.len() as int, 10u8, c - pos as int));
                    let cw = choose|x: int| #[trigger] first_at(s, 0, s.len() as int, 10u8, x);
                    lemma_first_at_unique(s, 0, s.len() as int, 10u8, cw, c - pos as int);
                }
                c
            },
            None => {
                proof {
                    if exists|x: int| #[trigger] first_at(s, 0, s.len() as int, 10u8, x) {
                        let x = choose|x: int| #[trigger] first_at(s, 0, s.len() as int, 10u8, x);
                        assert(text@[pos + x] != 10u8);
                    }
                }
                text.len()
            },
        };
        let ghost nn: int = n - pos as int;
        let nextpos = if n == text.len() {
            text.len()
        } else {
            n + 1
        };
        proof {
            if nn == s.len() as int {
                assert(text@.skip(nextpos as int) =~= Seq::<u8>::empty());
            } else {
                assert(text@.skip(nextpos as int) =~= s.subrange(nn + 1, s.len() as int));
            }
        }
        if n == pos {
            parse_from(text, nextpos, lineno + 1)
        } else {
            let line = bytes_sub(text, pos, n);
            proof {
                assert(line@ =~= s.subrange(0, nn));
            }
            let item = parse_line(&line, lineno);
            let mut rest = parse_from(text, nextpos, lineno + 1);
            let ghost r0 = rest@;
            let mut out: Vec<Item> = Vec::new();
            out.push(item);
            out.append(&mut rest);
            proof {
                assert(out@.skip(1) =~= r0);
            }
            out
        }
    }
}

/// Parse a whole text. Parsing is deterministic and total: unparseable lines
/// become error items, and the result is pinned by `parse_rel`.
pub fn parse(text: &Vec<u8>) -> (sf: SourceFile)
    ensures
        parse_rel(text@, sf),
{
    let n = text.len();
    proof {
        assert(text@.len() == n);
    }
    let items = parse_from(text, 0, 0);
    proof {
        assert(text@.skip(0) =~= text@);
    }
    SourceFile { items }
}

} // verus!
