//! Layered observation for browser automation: deterministic choice of how
//! much page data (accessibility tree, DOM subtree, screenshot) the agent
//! receives, from counters read off the formatted accessibility tree.
use vstd::prelude::*;
use vstd::utf8::*;
use vstd::string::*;
use crate::text::{chars_of, contains_seq, lemma_pieces_at_sep, lemma_pieces_no_sep, newline_segments, occurs_at,
    range_contains};

verus! {

/// Observation tier: how much page data the agent receives.
#[derive(Debug, Clone, PartialEq, Eq)]
pub enum ObservationTier {
    /// Accessibility tree only.
    Tree,
    /// Tree plus the DOM subtree under `selector`, rendered as Markdown.
    TreeWithDom { selector: String },
    /// Tree plus an element (or, with no selector, viewport) screenshot.
    TreeWithScreenshot { selector: Option<String> },
}

/// The mathematical content of an [`ObservationTier`].
pub enum TierView {
    Tree,
    TreeWithDom(Seq<char>),
    TreeWithScreenshot(Option<Seq<char>>),
}

impl View for ObservationTier {
    type V = TierView;

    open spec fn view(&self) -> TierView {
        match self {
            ObservationTier::Tree => TierView::Tree,
            ObservationTier::TreeWithDom { selector } => TierView::TreeWithDom(selector@),
            ObservationTier::TreeWithScreenshot { selector } => TierView::TreeWithScreenshot(
                match selector {
                    Some(s) => Some(s@),
                    None => None,
                },
            ),
        }
    }
}

/// Counters extracted from a formatted accessibility tree.
#[derive(Debug, Clone)]
pub struct TreeMetadata {
    /// Number of interactive elements (button, link, textbox).
    pub total_interactive: usize,
    /// Interactive elements whose name is empty or missing.
    pub unlabeled_interactive: usize,
    /// The tree contains a table role.
    pub has_table: bool,
    /// The tree contains a form role.
    pub has_form: bool,
    /// The tree contains an img role.
    pub has_images_with_semantic_meaning: bool,
    /// A QR code was detected on the page.
    pub has_qr_code: bool,
}

impl Default for TreeMetadata {
    /// All counters zero, all flags false.
    fn default() -> (r: Self)
        ensures
            r.total_interactive == 0,
            r.unlabeled_interactive == 0,
            !r.has_table,
            !r.has_form,
            !r.has_images_with_semantic_meaning,
            !r.has_qr_code,
    {
        TreeMetadata {
            total_interactive: 0,
            unlabeled_interactive: 0,
            has_table: false,
            has_form: false,
            has_images_with_semantic_meaning: false,
            has_qr_code: false,
        }
    }
}

pub open spec fn button_word() -> Seq<char> {
    seq!['b', 'u', 't', 't', 'o', 'n']
}

pub open spec fn link_word() -> Seq<char> {
    seq!['l', 'i', 'n', 'k']
}

pub open spec fn textbox_word() -> Seq<char> {
    seq!['t', 'e', 'x', 't', 'b', 'o', 'x']
}

pub open spec fn table_word() -> Seq<char> {
    seq!['t', 'a', 'b', 'l', 'e']
}

pub open spec fn form_word() -> Seq<char> {
    seq!['f', 'o', 'r', 'm']
}

pub open spec fn img_word() -> Seq<char> {
    seq!['i', 'm', 'g']
}

pub open spec fn quote_mark() -> Seq<char> {
    seq!['"']
}

pub open spec fn empty_label() -> Seq<char> {
    seq!['"', '"']
}

/// A line names an interactive role.
pub open spec fn is_interactive_line(l: Seq<char>) -> bool {
    contains_seq(l, button_word()) || contains_seq(l, link_word()) || contains_seq(l, textbox_word())
}

/// An interactive line with an empty quoted name or no quoted name at all.
pub open spec fn is_unlabeled_line(l: Seq<char>) -> bool {
    is_interactive_line(l) && (contains_seq(l, empty_label()) || !contains_seq(l, quote_mark()))
}

/// Number of interactive lines.
pub open spec fn count_interactive(ls: Seq<Seq<char>>) -> nat
    decreases ls.len(),
{
    if ls.len() == 0 {
        0
    } else {
        count_interactive(ls.drop_last()) + if is_interactive_line(ls.last()) { 1nat } else { 0nat }
    }
}

/// Number of unlabeled interactive lines.
pub open spec fn count_unlabeled(ls: Seq<Seq<char>>) -> nat
    decreases ls.len(),
{
    if ls.len() == 0 {
        0
    } else {
        count_unlabeled(ls.drop_last()) + if is_unlabeled_line(ls.last()) { 1nat } else { 0nat }
    }
}

/// Some line contains `word`.
pub open spec fn some_line_contains(ls: Seq<Seq<char>>, word: Seq<char>) -> bool {
    exists|i: int| 0 <= i < ls.len() && contains_seq(#[trigger] ls[i], word)
}

/// The metadata of a tree text: every counter and flag is read line by line.
/// (`str::lines` differs from `newline_segments` only by a final empty piece
/// and a `'\r'` before each newline, and neither can hold a role name, a
/// quote mark, or an empty label, so they change no counter.)
pub open spec fn tree_metadata_of(meta: TreeMetadata, text: Seq<char>) -> bool {
    let ls = newline_segments(text);
    &&& meta.total_interactive == count_interactive(ls)
    &&& meta.unlabeled_interactive == count_unlabeled(ls)
    &&& meta.has_table == some_line_contains(ls, table_word())
    &&& meta.has_form == some_line_contains(ls, form_word())
    &&& meta.has_images_with_semantic_meaning == some_line_contains(ls, img_word())
    &&& !meta.has_qr_code
}

proof fn lemma_counts_push(ls: Seq<Seq<char>>, l: Seq<char>)
    ensures
        count_interactive(ls.push(l)) == count_interactive(ls) + if is_interactive_line(l) { 1nat } else { 0nat },
        count_unlabeled(ls.push(l)) == count_unlabeled(ls) + if is_unlabeled_line(l) { 1nat } else { 0nat },
{
    assert(ls.push(l).drop_last() =~= ls);
}

proof fn lemma_unlabeled_le_interactive(ls: Seq<Seq<char>>)
    ensures
        count_unlabeled(ls) <= count_interactive(ls) <= ls.len(),
    decreases ls.len(),
{
    if ls.len() > 0 {
        lemma_unlabeled_le_interactive(ls.drop_last());
    }
}

/// Fold one line into the running metadata.
fn add_line(meta: &mut TreeMetadata, v: &Vec<char>, lo: usize, hi: usize, Ghost(done): Ghost<Seq<Seq<char>>>)
    requires
        lo <= hi <= v@.len(),
        old(meta).total_interactive == count_interactive(done),
        old(meta).unlabeled_interactive == count_unlabeled(done),
        old(meta).has_table == some_line_contains(done, table_word()),
        old(meta).has_form == some_line_contains(done, form_word()),
        old(meta).has_images_with_semantic_meaning == some_line_contains(done, img_word()),
        !old(meta).has_qr_code,
        count_interactive(done) < usize::MAX || lo == hi,
    ensures
        ({
            let ls = done.push(v@.subrange(lo as int, hi as int));
            &&& final(meta).total_interactive == count_interactive(ls)
            &&& final(meta).unlabeled_interactive == count_unlabeled(ls)
            &&& final(meta).has_table == some_line_contains(ls, table_word())
            &&& final(meta).has_form == some_line_contains(ls, form_word())
            &&& final(meta).has_images_with_semantic_meaning == some_line_contains(ls, img_word())
            &&& !final(meta).has_qr_code
        }),
{
    let ghost l = v@.subrange(lo as int, hi as int);
    let ghost ls = done.push(l);
    let button = ['b', 'u', 't', 't', 'o', 'n'];
    let link = ['l', 'i', 'n', 'k'];
    let textbox = ['t', 'e', 'x', 't', 'b', 'o', 'x'];
    let table = ['t', 'a', 'b', 'l', 'e'];
    let form = ['f', 'o', 'r', 'm'];
    let img = ['i', 'm', 'g'];
    let quote = ['"'];
    let empty = ['"', '"'];
    assert(button@ =~= button_word());
    assert(link@ =~= link_word());
    assert(textbox@ =~= textbox_word());
    assert(table@ =~= table_word());
    assert(form@ =~= form_word());
    assert(img@ =~= img_word());
    assert(quote@ =~= quote_mark());
    assert(empty@ =~= empty_label());
    proof {
        lemma_counts_push(done, l);
        lemma_unlabeled_le_interactive(done);
        if lo == hi {
            assert(!occurs_at(l, button_word(), 0));
            assert(!contains_seq(l, button_word()));
            assert(!contains_seq(l, link_word()));
            assert(!contains_seq(l, textbox_word()));
        }
    }
    if range_contains(v, lo, hi, &button) || range_contains(v, lo, hi, &link)
        || range_contains(v, lo, hi, &textbox) {
        meta.total_interactive = meta.total_interactive + 1;
        if range_contains(v, lo, hi, &empty) || !range_contains(v, lo, hi, &quote) {
            meta.unlabeled_interactive = meta.unlabeled_interactive + 1;
        }
    }
    if range_contains(v, lo, hi, &table) {
        meta.has_table = true;
    }
    if range_contains(v, lo, hi, &form) {
        meta.has_form = true;
    }
    if range_contains(v, lo, hi, &img) {
        meta.has_images_with_semantic_meaning = true;
    }
    proof {
        assert(ls[done.len() as int] == l);
        assert forall|w: Seq<char>| some_line_contains(ls, w) == (some_line_contains(done, w) || contains_seq(l, w)) by {
            if some_line_contains(ls, w) {
                let i = choose|i: int| 0 <= i < ls.len() && contains_seq(#[trigger] ls[i], w);
                if i < done.len() {
                    assert(ls[i] == done[i]);
                }
            }
            if some_line_contains(done, w) {
                let i = choose|i: int| 0 <= i < done.len() && contains_seq(#[trigger] done[i], w);
                assert(ls[i] == done[i]);
            }
        }
    }
}

/// Read the metadata counters off a formatted accessibility tree, line by line.
pub fn analyze_tree(tree_text: &str) -> (meta: TreeMetadata)
    ensures
        tree_metadata_of(meta, tree_text@),
        meta.unlabeled_interactive <= meta.total_interactive,
{
    let v = chars_of(tree_text);
    let mut meta = TreeMetadata::default();
    let mut start: usize = 0;
    let mut i: usize = 0;
    let ghost mut done: Seq<Seq<char>> = Seq::empty();
    assert(v@.skip(0) =~= v@);
    while i < v.len()
        invariant
            v@ == tree_text@,
            start <= i <= v@.len(),
            done.len() <= start,
            forall|t: int| start <= t < i ==> v@[t] != '\n',
            done + newline_segments(v@.skip(start as int)) == newline_segments(v@),
            meta.total_interactive == count_interactive(done),
            meta.unlabeled_interactive == count_unlabeled(done),
            meta.has_table == some_line_contains(done, table_word()),
            meta.has_form == some_line_contains(done, form_word()),
            meta.has_images_with_semantic_meaning == some_line_contains(done, img_word()),
            !meta.has_qr_code,
        decreases v@.len() - i,
    {
        if v[i] == '\n' {
            proof {
                lemma_unlabeled_le_interactive(done);
                let rest = v@.skip(start as int);
                lemma_pieces_at_sep(rest, '\n', i - start);
                assert(rest.take(i - start) =~= v@.subrange(start as int, i as int));
                assert(rest.skip(i - start + 1) =~= v@.skip(i + 1));
                assert(done + newline_segments(rest) =~= done.push(v@.subrange(start as int, i as int))
                    + newline_segments(v@.skip(i + 1)));
            }
            add_line(&mut meta, &v, start, i, Ghost(done));
            proof {
                done = done.push(v@.subrange(start as int, i as int));
            }
            start = i + 1;
        }
        i = i + 1;
    }
    proof {
        let rest = v@.skip(start as int);
        lemma_pieces_no_sep(rest, '\n');
        assert(rest =~= v@.subrange(start as int, v@.len() as int));
        assert(done + newline_segments(rest) =~= done.push(rest));
        lemma_unlabeled_le_interactive(done);
    }
    add_line(&mut meta, &v, start, v.len(), Ghost(done));
    proof {
        lemma_unlabeled_le_interactive(done.push(v@.subrange(start as int, v@.len() as int)));
    }
    meta
}

/// Unicode lowercase mapping of a text, as `str::to_lowercase` computes it.
pub uninterp spec fn unicode_lowercase(s: Seq<char>) -> Seq<char>;

/// The lowercase form of an ASCII character (other characters unchanged).
pub open spec fn ascii_lower(c: char) -> char {
    if 'A' <= c && c <= 'Z' {
        ((c as u32) + 32) as char
    } else {
        c
    }
}

/// `str::to_lowercase`: the result is the Unicode lowercase mapping of `s`,
/// a function of `s` alone (no locale is consulted); on ASCII text it maps
/// each letter A-Z to a-z and keeps every other character.
#[verifier::external_body]
fn lowercase(s: &str) -> (r: String)
    ensures
        r@ == unicode_lowercase(s@),
        (forall|i: int| 0 <= i < s@.len() ==> (#[trigger] s@[i] as u32) < 128) ==> r@ == s@.map_values(
            |c: char| ascii_lower(c),
        ),
{
    s.to_lowercase()
}

pub open spec fn captcha_word() -> Seq<char> {
    seq!['c', 'a', 'p', 't', 'c', 'h', 'a']
}

pub open spec fn image_word() -> Seq<char> {
    seq!['i', 'm', 'a', 'g', 'e']
}

pub open spec fn visual_word() -> Seq<char> {
    seq!['v', 'i', 's', 'u', 'a', 'l']
}

pub open spec fn layout_word() -> Seq<char> {
    seq!['l', 'a', 'y', 'o', 'u', 't']
}

/// A (lowercased) action hint that asks for visual verification.
pub open spec fn hint_is_visual(h: Seq<char>) -> bool {
    contains_seq(h, captcha_word()) || contains_seq(h, image_word()) || contains_seq(h, visual_word())
        || contains_seq(h, layout_word())
}

/// More than a third (rounded down) of the interactive elements are unlabeled.
pub open spec fn mostly_unlabeled(meta: TreeMetadata) -> bool {
    meta.total_interactive > 0 && meta.unlabeled_interactive > meta.total_interactive / 3
}

/// The tier for `meta`, a lowercased hint, and whether the previous action
/// failed: screenshot first (failure, QR code, visual hint), then DOM detail
/// (table, mostly unlabeled, form, in that order), else the tree alone.
pub open spec fn tier_for(meta: TreeMetadata, lowered_hint: Option<Seq<char>>, previous_action_failed: bool) -> TierView {
    if previous_action_failed || meta.has_qr_code || (lowered_hint matches Some(h) && hint_is_visual(h)) {
        TierView::TreeWithScreenshot(None)
    } else if meta.has_table {
        TierView::TreeWithDom("table"@)
    } else if mostly_unlabeled(meta) {
        TierView::TreeWithDom("body"@)
    } else if meta.has_form {
        TierView::TreeWithDom("form"@)
    } else {
        TierView::Tree
    }
}

/// Whether the lowercased hint mentions captcha, image, visual or layout.
fn mentions_visual(h: &str) -> (r: bool)
    ensures
        r == hint_is_visual(h@),
{
    let v = chars_of(h);
    let captcha = ['c', 'a', 'p', 't', 'c', 'h', 'a'];
    let image = ['i', 'm', 'a', 'g', 'e'];
    let visual = ['v', 'i', 's', 'u', 'a', 'l'];
    let layout = ['l', 'a', 'y', 'o', 'u', 't'];
    assert(captcha@ =~= captcha_word());
    assert(image@ =~= image_word());
    assert(visual@ =~= visual_word());
    assert(layout@ =~= layout_word());
    assert(v@.subrange(0, v@.len() as int) =~= v@);
    range_contains(&v, 0, v.len(), &captcha) || range_contains(&v, 0, v.len(), &image)
        || range_contains(&v, 0, v.len(), &visual) || range_contains(&v, 0, v.len(), &layout)
}

/// Tier selection from an action hint that is already lowercased.
pub fn select_tier_lowered(meta: &TreeMetadata, lowered_hint: Option<&str>, previous_action_failed: bool) -> (r: ObservationTier)
    ensures
        r@ == tier_for(*meta, match lowered_hint { Some(h) => Some(h@), None => None }, previous_action_failed),
{
    if previous_action_failed {
        return ObservationTier::TreeWithScreenshot { selector: None };
    }
    if meta.has_qr_code {
        return ObservationTier::TreeWithScreenshot { selector: None };
    }
    if let Some(h) = lowered_hint {
        if mentions_visual(h) {
            return ObservationTier::TreeWithScreenshot { selector: None };
        }
    }
    if meta.has_table {
        return ObservationTier::TreeWithDom { selector: "table".to_owned() };
    }
    if meta.total_interactive > 0 && meta.unlabeled_interactive > meta.total_interactive / 3 {
        return ObservationTier::TreeWithDom { selector: "body".to_owned() };
    }
    if meta.has_form {
        return ObservationTier::TreeWithDom { selector: "form".to_owned() };
    }
    ObservationTier::Tree
}

/// Deterministic tier selection from tree metadata, an optional action hint
/// (matched case-insensitively through its Unicode lowercase form) and
/// whether the previous action failed.
pub fn select_tier(meta: &TreeMetadata, action_hint: Option<&str>, previous_action_failed: bool) -> (r: ObservationTier)
    ensures
        r@ == tier_for(
            *meta,
            match action_hint { Some(h) => Some(unicode_lowercase(h@)), None => None },
            previous_action_failed,
        ),
        action_hint matches Some(h) ==> ((forall|i: int| 0 <= i < h@.len() ==> (#[trigger] h@[i] as u32) < 128)
            ==> r@ == tier_for(*meta, Some(h@.map_values(|c: char| ascii_lower(c))), previous_action_failed)),
{
    match action_hint {
        Some(hint) => {
            let h = lowercase(hint);
            select_tier_lowered(meta, Some(h.as_str()), previous_action_failed)
        },
        None => select_tier_lowered(meta, None, previous_action_failed),
    }
}

/// The largest character boundary of `bytes` that is at most `limit`.
pub open spec fn is_last_boundary_within(bytes: Seq<u8>, limit: int, b: int) -> bool {
    &&& 0 <= b <= limit
    &&& is_char_boundary(bytes, b)
    &&& forall|j: int| b < j <= limit ==> !is_char_boundary(bytes, j)
}

/// Cut `s` to at most `max_chars` bytes at a character boundary: `s` itself
/// when it fits, else its prefix up to the last boundary at or before
/// `max_chars`.
pub fn truncate_safe(s: &str, max_chars: usize) -> (r: &str)
    ensures
        s.len() <= max_chars ==> r == s,
        s.len() > max_chars ==> exists|b: int|
            is_last_boundary_within(s.spec_bytes(), max_chars as int, b)
            && r.spec_bytes() == s.spec_bytes().take(b),
        s.spec_bytes().len() <= usize::MAX ==> r.spec_bytes() == truncated(s.spec_bytes(), max_chars as nat),
{
    if s.len() <= max_chars {
        return s;
    }
    let ghost bytes = s.spec_bytes();
    proof {
        encode_utf8_valid_utf8(s@);
        is_char_boundary_start_end_of_seq(bytes);
    }
    let mut b: usize = max_chars;
    while !s.is_char_boundary(b)
        invariant
            b <= max_chars < bytes.len(),
            bytes == s.spec_bytes(),
            valid_utf8(bytes),
            is_char_boundary(bytes, 0),
            forall|j: int| b < j <= max_chars ==> !is_char_boundary(bytes, j),
        decreases b,
    {
        b = b - 1;
    }
    let (head, _tail) = s.split_at(b);
    assert(head.spec_bytes() =~= bytes.take(b as int));
    assert(is_last_boundary_within(bytes, max_chars as int, b as int));
    proof {
        let c = choose|c: int| #[trigger] is_last_boundary_within(bytes, max_chars as int, c);
        lemma_last_boundary_unique(bytes, max_chars as int, b as int, c);
    }
    head
}

/// A failed previous action always escalates to a viewport screenshot,
/// whatever the page and the hint.
pub proof fn law_failure_forces_screenshot(meta: TreeMetadata, hint: Option<Seq<char>>)
    ensures
        tier_for(meta, hint, true) == TierView::TreeWithScreenshot(None),
{
}

/// A detected QR code always escalates to a viewport screenshot, whatever
/// else the page holds, so the user can scan it.
pub proof fn law_qr_code_forces_screenshot(meta: TreeMetadata, hint: Option<Seq<char>>, failed: bool)
    requires
        meta.has_qr_code,
    ensures
        tier_for(meta, hint, failed) == TierView::TreeWithScreenshot(None),
{
}

/// Without a reason for a screenshot, a table takes priority over every
/// other DOM reason (unlabeled elements, forms).
pub proof fn law_table_before_form(meta: TreeMetadata, hint: Option<Seq<char>>)
    requires
        meta.has_table,
        !meta.has_qr_code,
        !(hint matches Some(h) && hint_is_visual(h)),
    ensures
        tier_for(meta, hint, false) == TierView::TreeWithDom("table"@),
{
}

/// A hint asking for visual verification (captcha, image, visual, layout)
/// always gets a viewport screenshot, whatever tables, forms or unlabeled
/// elements the page has: the visual check comes before the DOM checks.
pub proof fn law_visual_hint_forces_screenshot(meta: TreeMetadata, h: Seq<char>, failed: bool)
    requires
        hint_is_visual(h),
    ensures
        tier_for(meta, Some(h), failed) == TierView::TreeWithScreenshot(None),
{
}

/// A DOM subtree is chosen only when no screenshot is called for: the
/// previous action did not fail, there is no QR code and the hint is not
/// visual.
pub proof fn law_dom_only_without_screenshot_reason(meta: TreeMetadata, hint: Option<Seq<char>>, failed: bool)
    ensures
        tier_for(meta, hint, failed) is TreeWithDom ==> !failed && !meta.has_qr_code && !(hint matches Some(h)
            && hint_is_visual(h)),
{
}

/// Without a reason for a screenshot or a table, a page whose interactive
/// elements are mostly unlabeled gets the whole body, even when it has a
/// form; a form alone gets the form.
pub proof fn law_unlabeled_before_form(meta: TreeMetadata, hint: Option<Seq<char>>)
    requires
        !meta.has_qr_code,
        !meta.has_table,
        !(hint matches Some(h) && hint_is_visual(h)),
    ensures
        mostly_unlabeled(meta) ==> tier_for(meta, hint, false) == TierView::TreeWithDom("body"@),
        !mostly_unlabeled(meta) && meta.has_form ==> tier_for(meta, hint, false) == TierView::TreeWithDom("form"@),
{
}

/// The tree alone is enough exactly when nothing asks for more: no failure,
/// no QR code, no visual hint, no table, no form, and at most a third of the
/// interactive elements unlabeled.
pub proof fn law_tree_only_when_nothing_asks_more(meta: TreeMetadata, hint: Option<Seq<char>>, failed: bool)
    ensures
        (tier_for(meta, hint, failed) == TierView::Tree) <==> (!failed && !meta.has_qr_code && !(hint matches Some(
            h,
        ) && hint_is_visual(h)) && !meta.has_table && !mostly_unlabeled(meta) && !meta.has_form),
{
}

/// A page without text yields the default metadata, and the default
/// metadata asks for the tree alone when nothing else does.
pub proof fn law_empty_tree_needs_tree_only(meta: TreeMetadata)
    requires
        tree_metadata_of(meta, Seq::empty()),
    ensures
        meta.total_interactive == 0,
        tier_for(meta, None, false) == TierView::Tree,
{
    let e = Seq::<char>::empty();
    lemma_pieces_no_sep(e, '\n');
    let ls = newline_segments(e);
    assert(ls =~= seq![e]);
    assert(ls.drop_last() =~= Seq::<Seq<char>>::empty());
    assert(!occurs_at(e, button_word(), 0));
    assert(!contains_seq(e, button_word()));
    assert(!contains_seq(e, link_word()));
    assert(!contains_seq(e, textbox_word()));
    assert(!contains_seq(e, table_word()));
    assert(!contains_seq(e, form_word()));
    assert(ls.last() == e);
    assert(count_interactive(ls.drop_last()) == 0);
    assert(count_interactive(ls) == 0);
    assert(!some_line_contains(ls, table_word()));
    assert(!some_line_contains(ls, form_word()));
}

/// The prefix of `bytes` kept when cutting at `limit`: everything when it
/// fits, else up to the last character boundary at or before `limit`.
pub open spec fn truncated(bytes: Seq<u8>, limit: nat) -> Seq<u8> {
    if bytes.len() <= limit {
        bytes
    } else {
        bytes.take(choose|b: int| #[trigger] is_last_boundary_within(bytes, limit as int, b))
    }
}

proof fn lemma_last_boundary_unique(bytes: Seq<u8>, limit: int, b1: int, b2: int)
    requires
        is_last_boundary_within(bytes, limit, b1),
        is_last_boundary_within(bytes, limit, b2),
    ensures
        b1 == b2,
{
}

/// Cutting gives a prefix that is itself valid UTF-8: the whole text when it
/// fits in `limit` bytes, else at most `limit` bytes.
pub proof fn law_truncation_is_short_valid_prefix(chars: Seq<char>, limit: nat)
    ensures
        encode_utf8(chars).len() <= limit ==> truncated(encode_utf8(chars), limit) == encode_utf8(chars),
        encode_utf8(chars).len() > limit ==> truncated(encode_utf8(chars), limit).len() <= limit,
        truncated(encode_utf8(chars), limit).is_prefix_of(encode_utf8(chars)),
        valid_utf8(truncated(encode_utf8(chars), limit)),
{
    let bytes = encode_utf8(chars);
    encode_utf8_valid_utf8(chars);
    if bytes.len() > limit {
        is_char_boundary_start_end_of_seq(bytes);
        lemma_last_boundary_exists(bytes, limit as int);
        let b = choose|b: int| #[trigger] is_last_boundary_within(bytes, limit as int, b);
        valid_utf8_split(bytes, b);
        assert(bytes.take(b) =~= bytes.subrange(0, b));
    }
}

proof fn lemma_last_boundary_exists(bytes: Seq<u8>, limit: int)
    requires
        valid_utf8(bytes),
        0 <= limit < bytes.len(),
    ensures
        exists|b: int| #[trigger] is_last_boundary_within(bytes, limit, b),
    decreases limit,
{
    is_char_boundary_start_end_of_seq(bytes);
    if is_char_boundary(bytes, limit) {
        assert(is_last_boundary_within(bytes, limit, limit));
    } else {
        lemma_last_boundary_exists(bytes, limit - 1);
        let b = choose|b: int| #[trigger] is_last_boundary_within(bytes, limit - 1, b);
        assert(is_last_boundary_within(bytes, limit, b));
    }
}

/// Cutting twice at the same limit is cutting once.
pub proof fn law_truncation_idempotent(chars: Seq<char>, limit: nat)
    ensures
        truncated(truncated(encode_utf8(chars), limit), limit) == truncated(encode_utf8(chars), limit),
{
    law_truncation_is_short_valid_prefix(chars, limit);
}

} // verus!
