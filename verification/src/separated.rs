//! Formatting of separated lists (such as the members of an object or the
//! elements of an array).
//!
//! Formatting a list gives one item per element; an item is the element's
//! node followed by its separator, or a syntax error where the node or the
//! separator slot is missing. The separators found in the list are reused;
//! where the last element has none, one is created from the separator text.
//! Whether the last separator is printed depends on the
//! [`TrailingSeparator`] policy: with [`TrailingSeparator::Allowed`] it is
//! printed only when the enclosing group breaks over several lines. A
//! separator token of the list that is not printed still keeps its comments.

use vstd::prelude::*;

verus! {

/// What to do with the separator after the last element.
#[derive(Clone, Copy, Debug, PartialEq, Eq, Structural)]
pub enum TrailingSeparator {
    /// Printed only when the enclosing group breaks.
    Allowed,
    /// Must not appear: a trailing separator in the list is an error.
    Disallowed,
    /// Never printed; one present in the list is removed (its comments stay).
    Omit,
    /// Always printed.
    Mandatory,
}

/// A separator token of the list: its text and the comments attached to it,
/// which are printed after the text.
#[derive(Debug)]
pub struct SeparatorToken {
    pub text: String,
    pub comments: String,
}

/// The separator slot that follows an element in the list.
pub enum SeparatorSlot {
    /// The slot holds a separator token.
    Token(SeparatorToken),
    /// There is no separator (only possible after the last element).
    Absent,
    /// The slot is required but missing: a syntax error.
    Missing,
}

/// An element of a separated list: the formatted node (`None` where the
/// node is missing) and the separator slot that follows it.
pub struct SeparatedElement {
    pub node: Option<String>,
    pub trailing_separator: SeparatorSlot,
}

/// A separated list, as a sequence of elements.
pub struct SeparatedList {
    pub elements: Vec<SeparatedElement>,
}

/// The error raised while formatting a list that cannot be formatted.
#[derive(Clone, Copy, Debug, PartialEq, Eq, Structural)]
pub enum FormatError {
    /// A node or separator is missing, or a trailing separator appeared
    /// where the policy disallows one.
    SyntaxError,
}

/// One piece of the formatted output of a separated list.
#[derive(Debug)]
pub enum FormatPiece {
    /// A formatted element.
    Node(String),
    /// A separator token taken from the list.
    Separator(SeparatorToken),
    /// A separator created because the list had none there.
    InsertedSeparator(String),
    /// A separator token of the list whose text is printed only when the
    /// enclosing group breaks; its comments are printed in any case.
    SeparatorIfGroupBreaks(SeparatorToken),
    /// A created separator that is printed only when the enclosing group
    /// breaks.
    InsertedIfGroupBreaks(String),
    /// A separator token of the list whose text is not printed; its comments
    /// are.
    Removed(SeparatorToken),
}

/// The mathematical view of a [`SeparatorToken`].
pub struct TokenView {
    pub text: Seq<char>,
    pub comments: Seq<char>,
}

/// The mathematical view of a [`SeparatorSlot`].
pub enum SlotView {
    Token(TokenView),
    Absent,
    Missing,
}

/// The mathematical view of a [`SeparatedElement`].
pub struct ElementView {
    pub node: Option<Seq<char>>,
    pub trailing_separator: SlotView,
}

/// The mathematical view of a [`FormatPiece`].
pub enum Piece {
    Node(Seq<char>),
    Separator(TokenView),
    InsertedSeparator(Seq<char>),
    SeparatorIfGroupBreaks(TokenView),
    InsertedIfGroupBreaks(Seq<char>),
    Removed(TokenView),
}

impl View for SeparatorToken {
    type V = TokenView;

    open spec fn view(&self) -> TokenView {
        TokenView { text: self.text@, comments: self.comments@ }
    }
}

impl View for SeparatorSlot {
    type V = SlotView;

    open spec fn view(&self) -> SlotView {
        match self {
            SeparatorSlot::Token(t) => SlotView::Token(t@),
            SeparatorSlot::Absent => SlotView::Absent,
            SeparatorSlot::Missing => SlotView::Missing,
        }
    }
}

impl View for SeparatedElement {
    type V = ElementView;

    open spec fn view(&self) -> ElementView {
        ElementView {
            node: match self.node {
                Some(s) => Some(s@),
                None => None,
            },
            trailing_separator: self.trailing_separator@,
        }
    }
}

impl DeepView for SeparatedElement {
    type V = ElementView;

    open spec fn deep_view(&self) -> ElementView {
        self@
    }
}

impl View for SeparatedList {
    type V = Seq<ElementView>;

    open spec fn view(&self) -> Seq<ElementView> {
        self.elements.deep_view()
    }
}

impl View for FormatPiece {
    type V = Piece;

    open spec fn view(&self) -> Piece {
        match self {
            FormatPiece::Node(s) => Piece::Node(s@),
            FormatPiece::Separator(t) => Piece::Separator(t@),
            FormatPiece::InsertedSeparator(s) => Piece::InsertedSeparator(s@),
            FormatPiece::SeparatorIfGroupBreaks(t) => Piece::SeparatorIfGroupBreaks(t@),
            FormatPiece::InsertedIfGroupBreaks(s) => Piece::InsertedIfGroupBreaks(s@),
            FormatPiece::Removed(t) => Piece::Removed(t@),
        }
    }
}

impl DeepView for FormatPiece {
    type V = Piece;

    open spec fn deep_view(&self) -> Piece {
        self@
    }
}

/// The view of one formatted item: its pieces, or `None` for a syntax error.
pub open spec fn item_view(item: Result<Vec<FormatPiece>, FormatError>) -> Option<Seq<Piece>> {
    match item {
        Ok(p) => Some(p.deep_view()),
        Err(_) => None,
    }
}

/// The views of a sequence of formatted items.
pub open spec fn items_view(items: Seq<Result<Vec<FormatPiece>, FormatError>>) -> Seq<
    Option<Seq<Piece>>,
> {
    Seq::new(items.len(), |i: int| item_view(items[i]))
}

/// A list is well formed when no element but the last lacks its separator
/// slot altogether (a missing one still counts as a slot).
pub open spec fn well_formed(elems: Seq<ElementView>) -> bool {
    forall|i: int|
        0 <= i < elems.len() - 1 ==> !((#[trigger] elems[i]).trailing_separator is Absent)
}

/// The pieces that follow an element's node: its separator when it is not
/// the last one, otherwise what the trailing-separator policy makes of the
/// separator found in the list or of the separator text. `None` is a
/// syntax error.
pub open spec fn trailing_pieces(
    slot: SlotView,
    is_last: bool,
    separator: Seq<char>,
    policy: TrailingSeparator,
) -> Option<Seq<Piece>> {
    match slot {
        SlotView::Token(t) => if !is_last {
            Some(seq![Piece::Separator(t)])
        } else {
            match policy {
                TrailingSeparator::Allowed => Some(seq![Piece::SeparatorIfGroupBreaks(t)]),
                TrailingSeparator::Mandatory => Some(seq![Piece::Separator(t)]),
                TrailingSeparator::Disallowed => None,
                TrailingSeparator::Omit => Some(seq![Piece::Removed(t)]),
            }
        },
        SlotView::Absent => if is_last {
            match policy {
                TrailingSeparator::Allowed => Some(seq![Piece::InsertedIfGroupBreaks(separator)]),
                TrailingSeparator::Mandatory => Some(seq![Piece::InsertedSeparator(separator)]),
                TrailingSeparator::Disallowed => Some(seq![]),
                TrailingSeparator::Omit => Some(seq![]),
            }
        } else {
            Some(seq![])
        },
        SlotView::Missing => None,
    }
}

/// The formatted item of one element: its node, then its trailing pieces;
/// `None` (a syntax error) where the node or the separator slot is missing,
/// or where the policy rejects the trailing separator.
pub open spec fn element_result(
    e: ElementView,
    is_last: bool,
    separator: Seq<char>,
    policy: TrailingSeparator,
) -> Option<Seq<Piece>> {
    match e.node {
        None => None,
        Some(n) => match trailing_pieces(e.trailing_separator, is_last, separator, policy) {
            Some(t) => Some(seq![Piece::Node(n)] + t),
            None => None,
        },
    }
}

/// The formatted item of element `i` of `elems`.
pub open spec fn element_pieces(
    elems: Seq<ElementView>,
    i: int,
    separator: Seq<char>,
    policy: TrailingSeparator,
) -> Option<Seq<Piece>> {
    element_result(elems[i], i == elems.len() - 1, separator, policy)
}

/// The formatted items of all elements, one per element.
pub open spec fn separated_items(
    elems: Seq<ElementView>,
    separator: Seq<char>,
    policy: TrailingSeparator,
) -> Seq<Option<Seq<Piece>>> {
    Seq::new(elems.len(), |i: int| element_pieces(elems, i, separator, policy))
}

/// The items joined one after the other; `None` as soon as one of them is a
/// syntax error.
pub open spec fn joined(items: Seq<Option<Seq<Piece>>>) -> Option<Seq<Piece>>
    decreases items.len(),
{
    if items.len() == 0 {
        Some(seq![])
    } else {
        match joined(items.drop_last()) {
            Some(p) => match items.last() {
                Some(e) => Some(p + e),
                None => None,
            },
            None => None,
        }
    }
}

/// The joined pieces of the first `k` elements of `elems`.
pub open spec fn pieces_prefix(
    elems: Seq<ElementView>,
    k: int,
    separator: Seq<char>,
    policy: TrailingSeparator,
) -> Option<Seq<Piece>>
    decreases k,
{
    if k <= 0 {
        Some(seq![])
    } else {
        match pieces_prefix(elems, k - 1, separator, policy) {
            Some(p) => match element_pieces(elems, k - 1, separator, policy) {
                Some(e) => Some(p + e),
                None => None,
            },
            None => None,
        }
    }
}

/// The formatted pieces of a whole separated list, or `None` for a syntax
/// error.
pub open spec fn separated_pieces(
    elems: Seq<ElementView>,
    separator: Seq<char>,
    policy: TrailingSeparator,
) -> Option<Seq<Piece>> {
    pieces_prefix(elems, elems.len() as int, separator, policy)
}

/// A token as printed: its text, then its comments.
pub open spec fn token_text(t: TokenView) -> Seq<char> {
    t.text + t.comments
}

/// What is printed of a token whose text is not: its comments, if any.
pub open spec fn comments_kept(t: TokenView) -> Seq<Seq<char>> {
    if t.comments.len() == 0 {
        seq![]
    } else {
        seq![t.comments]
    }
}

/// The texts printed for one piece.
pub open spec fn printed_piece(p: Piece, group_breaks: bool) -> Seq<Seq<char>> {
    match p {
        Piece::Node(t) => seq![t],
        Piece::Separator(t) => seq![token_text(t)],
        Piece::InsertedSeparator(t) => seq![t],
        Piece::SeparatorIfGroupBreaks(t) => if group_breaks {
            seq![token_text(t)]
        } else {
            comments_kept(t)
        },
        Piece::InsertedIfGroupBreaks(t) => if group_breaks {
            seq![t]
        } else {
            seq![]
        },
        Piece::Removed(t) => comments_kept(t),
    }
}

/// The texts printed for a sequence of pieces, in order.
pub open spec fn printed(ps: Seq<Piece>, group_breaks: bool) -> Seq<Seq<char>>
    decreases ps.len(),
{
    if ps.len() == 0 {
        seq![]
    } else {
        printed(ps.drop_last(), group_breaks) + printed_piece(ps.last(), group_breaks)
    }
}

/// A copy of a separator token.
fn copy_token(t: &SeparatorToken) -> (res: SeparatorToken)
    ensures
        res@ == t@,
{
    SeparatorToken { text: t.text.clone(), comments: t.comments.clone() }
}

/// A copy of a formatted piece.
fn copy_piece(p: &FormatPiece) -> (res: FormatPiece)
    ensures
        res@ == p@,
{
    match p {
        FormatPiece::Node(s) => FormatPiece::Node(s.clone()),
        FormatPiece::Separator(t) => FormatPiece::Separator(copy_token(t)),
        FormatPiece::InsertedSeparator(s) => FormatPiece::InsertedSeparator(s.clone()),
        FormatPiece::SeparatorIfGroupBreaks(t) => FormatPiece::SeparatorIfGroupBreaks(copy_token(t)),
        FormatPiece::InsertedIfGroupBreaks(s) => FormatPiece::InsertedIfGroupBreaks(s.clone()),
        FormatPiece::Removed(t) => FormatPiece::Removed(copy_token(t)),
    }
}

/// The rule that formats the nodes and separators of a JSON separated list.
pub struct JsonFormatSeparatedElementRule;

impl JsonFormatSeparatedElementRule {
    /// Formats an element of the list.
    pub fn format_node(&self, node: &String) -> (p: FormatPiece)
        ensures
            p@ == Piece::Node(node@),
    {
        FormatPiece::Node(node.clone())
    }

    /// Formats a separator token of the list.
    pub fn format_separator(&self, separator: &SeparatorToken) -> (p: FormatPiece)
        ensures
            p@ == Piece::Separator(separator@),
    {
        FormatPiece::Separator(copy_token(separator))
    }
}

/// Formats one element: its node, then its separator as the policy says.
fn format_element(
    rule: &JsonFormatSeparatedElementRule,
    element: &SeparatedElement,
    is_last: bool,
    separator: &str,
    policy: TrailingSeparator,
) -> (res: Result<Vec<FormatPiece>, FormatError>)
    ensures
        item_view(res) == element_result(element@, is_last, separator@, policy),
{
    let node = match &element.node {
        Some(n) => n,
        None => {
            return Err(FormatError::SyntaxError);
        },
    };
    let mut out: Vec<FormatPiece> = Vec::new();
    match &element.trailing_separator {
        SeparatorSlot::Missing => {
            return Err(FormatError::SyntaxError);
        },
        SeparatorSlot::Token(token) => {
            if !is_last {
                out.push(rule.format_node(node));
                out.push(rule.format_separator(token));
            } else {
                match policy {
                    TrailingSeparator::Allowed => {
                        out.push(rule.format_node(node));
                        out.push(FormatPiece::SeparatorIfGroupBreaks(copy_token(token)));
                    },
                    TrailingSeparator::Mandatory => {
                        out.push(rule.format_node(node));
                        out.push(rule.format_separator(token));
                    },
                    TrailingSeparator::Disallowed => {
                        return Err(FormatError::SyntaxError);
                    },
                    TrailingSeparator::Omit => {
                        out.push(rule.format_node(node));
                        out.push(FormatPiece::Removed(copy_token(token)));
                    },
                }
            }
        },
        SeparatorSlot::Absent => {
            out.push(rule.format_node(node));
            if is_last {
                match policy {
                    TrailingSeparator::Allowed => {
                        out.push(FormatPiece::InsertedIfGroupBreaks(separator.to_owned()));
                    },
                    TrailingSeparator::Mandatory => {
                        out.push(FormatPiece::InsertedSeparator(separator.to_owned()));
                    },
                    TrailingSeparator::Disallowed => {},
                    TrailingSeparator::Omit => {},
                }
            }
        },
    }
    let ghost r = element_result(element@, is_last, separator@, policy);
    assert(r is Some);
    assert(out.deep_view() =~= r.unwrap());
    Ok(out)
}

impl SeparatedList {
    /// Formats the list: one item per element, each the element's node
    /// followed by its separator. Separators are reused from the list, or
    /// created from `separator` where the last element has none; what
    /// becomes of the last one follows `trailing_separator`. An item is a
    /// syntax error where its node or separator slot is missing.
    pub fn format_separated(&self, separator: &str, trailing_separator: TrailingSeparator) -> (res:
        Vec<Result<Vec<FormatPiece>, FormatError>>)
        requires
            well_formed(self@),
        ensures
            items_view(res@) == separated_items(self@, separator@, trailing_separator),
    {
        let rule = JsonFormatSeparatedElementRule;
        let n = self.elements.len();
        let mut out: Vec<Result<Vec<FormatPiece>, FormatError>> = Vec::new();
        let mut i: usize = 0;
        while i < n
            invariant
                n == self@.len(),
                i <= n,
                out@.len() == i,
                forall|j: int|
                    0 <= j < i ==> item_view(#[trigger] out@[j]) == element_pieces(
                        self@,
                        j,
                        separator@,
                        trailing_separator,
                    ),
            decreases n - i,
        {
            let item = format_element(
                &rule,
                &self.elements[i],
                i + 1 == n,
                separator,
                trailing_separator,
            );
            out.push(item);
            i = i + 1;
        }
        assert(items_view(out@) =~= separated_items(self@, separator@, trailing_separator));
        out
    }
}

/// If the first `k` items do not join, neither do all of them.
proof fn lemma_joined_none_extends(items: Seq<Option<Seq<Piece>>>, k: int)
    requires
        0 <= k <= items.len(),
        joined(items.take(k)) is None,
    ensures
        joined(items) is None,
    decreases items.len() - k,
{
    if k == items.len() {
        assert(items.take(k) =~= items);
    } else {
        assert(items.take(k + 1).drop_last() =~= items.take(k));
        lemma_joined_none_extends(items, k + 1);
    }
}

/// Joins formatted items one after the other, stopping at the first one
/// that is a syntax error.
pub fn join_formatted(items: &Vec<Result<Vec<FormatPiece>, FormatError>>) -> (res: Result<
    Vec<FormatPiece>,
    FormatError,
>)
    ensures
        res is Err <==> joined(items_view(items@)) is None,
        res matches Ok(p) ==> joined(items_view(items@)) == Some(p.deep_view()),
{
    let ghost iv = items_view(items@);
    let mut out: Vec<FormatPiece> = Vec::new();
    let mut i: usize = 0;
    while i < items.len()
        invariant
            i <= items.len(),
            iv == items_view(items@),
            joined(iv.take(i as int)) == Some(out.deep_view()),
        decreases items.len() - i,
    {
        proof {
            assert(iv.take(i + 1).drop_last() =~= iv.take(i as int));
            assert(iv.take(i + 1).last() == item_view(items@[i as int]));
        }
        match &items[i] {
            Ok(pieces) => {
                let ghost before = out.deep_view();
                let mut j: usize = 0;
                while j < pieces.len()
                    invariant
                        j <= pieces.len(),
                        out.deep_view() =~= before + pieces.deep_view().take(j as int),
                    decreases pieces.len() - j,
                {
                    let ghost prev = out.deep_view();
                    out.push(copy_piece(&pieces[j]));
                    assert(out.deep_view() =~= prev.push(pieces.deep_view()[j as int]));
                    assert(pieces.deep_view().take(j + 1) =~= pieces.deep_view().take(
                        j as int,
                    ).push(pieces.deep_view()[j as int]));
                    j = j + 1;
                }
                assert(pieces.deep_view().take(pieces.len() as int) =~= pieces.deep_view());
            },
            Err(_) => {
                proof {
                    lemma_joined_none_extends(iv, i + 1);
                }
                return Err(FormatError::SyntaxError);
            },
        }
        i = i + 1;
    }
    assert(iv.take(items.len() as int) =~= iv);
    Ok(out)
}

/// Prints formatted pieces: nodes and separators are printed, text that
/// depends on the group breaking only when `group_breaks` holds, and of a
/// token whose text is not printed only its comments.
pub fn print_pieces(pieces: &Vec<FormatPiece>, group_breaks: bool) -> (res: Vec<String>)
    ensures
        res.deep_view() == printed(pieces.deep_view(), group_breaks),
{
    let mut out: Vec<String> = Vec::new();
    let mut i: usize = 0;
    while i < pieces.len()
        invariant
            i <= pieces.len(),
            out.deep_view() == printed(pieces.deep_view().take(i as int), group_breaks),
        decreases pieces.len() - i,
    {
        let ghost before = out.deep_view();
        proof {
            assert(pieces.deep_view().take(i + 1).drop_last() =~= pieces.deep_view().take(
                i as int,
            ));
        }
        match &pieces[i] {
            FormatPiece::Node(t) => out.push(t.clone()),
            FormatPiece::Separator(t) => {
                let mut s = t.text.clone();
                s.append(t.comments.as_str());
                out.push(s);
            },
            FormatPiece::InsertedSeparator(t) => out.push(t.clone()),
            FormatPiece::SeparatorIfGroupBreaks(t) => {
                if group_breaks {
                    let mut s = t.text.clone();
                    s.append(t.comments.as_str());
                    out.push(s);
                } else if t.comments.unicode_len() > 0 {
                    out.push(t.comments.clone());
                }
            },
            FormatPiece::InsertedIfGroupBreaks(t) => {
                if group_breaks {
                    out.push(t.clone());
                }
            },
            FormatPiece::Removed(t) => {
                if t.comments.unicode_len() > 0 {
                    out.push(t.comments.clone());
                }
            },
        }
        assert(out.deep_view() =~= before + printed_piece(pieces.deep_view()[i as int], group_breaks));
        i = i + 1;
    }
    assert(pieces.deep_view().take(pieces.len() as int) =~= pieces.deep_view());
    out
}

// ---------------------------------------------------------------------------
// Laws
// ---------------------------------------------------------------------------

/// Printing distributes over concatenation of pieces.
pub proof fn lemma_printed_concat(a: Seq<Piece>, b: Seq<Piece>, group_breaks: bool)
    ensures
        printed(a + b, group_breaks) == printed(a, group_breaks) + printed(b, group_breaks),
    decreases b.len(),
{
    if b.len() == 0 {
        assert(a + b =~= a);
        assert(printed(a, group_breaks) + printed(b, group_breaks) =~= printed(a, group_breaks));
    } else {
        lemma_printed_concat(a, b.drop_last(), group_breaks);
        assert((a + b).drop_last() =~= a + b.drop_last());
        assert((a + b).last() == b.last());
        assert(printed(a, group_breaks) + printed(b, group_breaks) =~= printed(a, group_breaks)
            + printed(b.drop_last(), group_breaks) + printed_piece(b.last(), group_breaks));
    }
}

/// Printing a sequence of one or two pieces.
proof fn lemma_printed_short(e: Seq<Piece>, group_breaks: bool)
    requires
        1 <= e.len() <= 2,
    ensures
        e.len() == 1 ==> printed(e, group_breaks) == printed_piece(e[0], group_breaks),
        e.len() == 2 ==> printed(e, group_breaks) == printed_piece(e[0], group_breaks)
            + printed_piece(e[1], group_breaks),
{
    if e.len() == 1 {
        assert(e.drop_last() =~= Seq::<Piece>::empty());
        assert(printed(e.drop_last(), group_breaks) =~= Seq::<Seq<char>>::empty());
        assert(printed(e, group_breaks) =~= printed_piece(e[0], group_breaks));
    } else {
        let d = e.drop_last();
        assert(d.drop_last() =~= Seq::<Piece>::empty());
        assert(printed(d.drop_last(), group_breaks) =~= Seq::<Seq<char>>::empty());
        assert(printed(d, group_breaks) =~= printed_piece(e[0], group_breaks));
    }
}

/// Joining the items of the first `k` elements gives their joined pieces.
proof fn lemma_joined_prefix(
    elems: Seq<ElementView>,
    k: int,
    separator: Seq<char>,
    policy: TrailingSeparator,
)
    requires
        0 <= k <= elems.len(),
    ensures
        joined(separated_items(elems, separator, policy).take(k)) == pieces_prefix(
            elems,
            k,
            separator,
            policy,
        ),
    decreases k,
{
    let items = separated_items(elems, separator, policy);
    if k == 0 {
        assert(items.take(0) =~= Seq::<Option<Seq<Piece>>>::empty());
    } else {
        lemma_joined_prefix(elems, k - 1, separator, policy);
        assert(items.take(k).drop_last() =~= items.take(k - 1));
        assert(items.take(k).last() == element_pieces(elems, k - 1, separator, policy));
    }
}

/// Joining the formatted items of a list gives the list's formatted pieces.
pub proof fn joined_items_format_the_list(
    elems: Seq<ElementView>,
    separator: Seq<char>,
    policy: TrailingSeparator,
)
    ensures
        joined(separated_items(elems, separator, policy)) == separated_pieces(
            elems,
            separator,
            policy,
        ),
{
    lemma_joined_prefix(elems, elems.len() as int, separator, policy);
    let items = separated_items(elems, separator, policy);
    assert(items.take(elems.len() as int) =~= items);
}

/// The item of an element is a syntax error exactly where its node is
/// missing, its separator slot is missing, or it is the last element, the
/// policy is `Disallowed` and a trailing separator is present; no node or
/// separator is invented for it. The items of the other elements do not
/// depend on it.
pub proof fn syntax_error_exactly_where_parts_missing(
    elems: Seq<ElementView>,
    separator: Seq<char>,
    policy: TrailingSeparator,
)
    ensures
        forall|i: int|
            0 <= i < elems.len() ==> ((#[trigger] separated_items(elems, separator, policy)[i])
                is None <==> (elems[i].node is None || elems[i].trailing_separator is Missing || (
            i == elems.len() - 1 && policy == TrailingSeparator::Disallowed
                && elems[i].trailing_separator is Token))),
{
}

/// A list joins to pieces exactly when none of its items is a syntax error.
pub proof fn list_formats_iff_every_item_formats(items: Seq<Option<Seq<Piece>>>)
    ensures
        joined(items) is Some <==> forall|i: int| 0 <= i < items.len() ==> (#[trigger] items[i]) is Some,
    decreases items.len(),
{
    if items.len() > 0 {
        list_formats_iff_every_item_formats(items.drop_last());
        if joined(items) is Some {
            assert forall|i: int| 0 <= i < items.len() implies (#[trigger] items[i]) is Some by {
                if i < items.len() - 1 {
                    assert(items.drop_last()[i] == items[i]);
                }
            }
        } else {
            if joined(items.drop_last()) is None {
                let i = choose|i: int|
                    0 <= i < items.drop_last().len() && (#[trigger] items.drop_last()[i]) is None;
                assert(items[i] is None);
            } else {
                assert(items[items.len() - 1] is None);
            }
        }
    }
}

/// The first `k` elements of a well-formed list that format, none of them
/// the last, format to their nodes each followed by the list's own
/// separator token.
proof fn lemma_prefix_shape(
    elems: Seq<ElementView>,
    k: int,
    separator: Seq<char>,
    policy: TrailingSeparator,
)
    requires
        well_formed(elems),
        0 <= k < elems.len(),
        pieces_prefix(elems, k, separator, policy) is Some,
    ensures
        pieces_prefix(elems, k, separator, policy).unwrap().len() == 2 * k,
        forall|j: int|
            0 <= j < k ==> {
                &&& elems[j].node is Some
                &&& elems[j].trailing_separator is Token
                &&& (#[trigger] pieces_prefix(elems, k, separator, policy).unwrap()[2 * j])
                    == Piece::Node(elems[j].node.unwrap())
                &&& pieces_prefix(elems, k, separator, policy).unwrap()[2 * j + 1]
                    == Piece::Separator(elems[j].trailing_separator->Token_0)
            },
        printed(pieces_prefix(elems, k, separator, policy).unwrap(), true) == printed(
            pieces_prefix(elems, k, separator, policy).unwrap(),
            false,
        ),
    decreases k,
{
    if k > 0 {
        assert(pieces_prefix(elems, k - 1, separator, policy) is Some);
        lemma_prefix_shape(elems, k - 1, separator, policy);
        let p = pieces_prefix(elems, k - 1, separator, policy).unwrap();
        assert(!(elems[k - 1].trailing_separator is Absent));
        let e = element_pieces(elems, k - 1, separator, policy).unwrap();
        let t = elems[k - 1].trailing_separator->Token_0;
        assert(e == seq![Piece::Node(elems[k - 1].node.unwrap()), Piece::Separator(t)]);
        let q = p + e;
        assert forall|j: int| 0 <= j < k implies {
            &&& elems[j].node is Some
            &&& elems[j].trailing_separator is Token
            &&& (#[trigger] q[2 * j]) == Piece::Node(elems[j].node.unwrap())
            &&& q[2 * j + 1] == Piece::Separator(elems[j].trailing_separator->Token_0)
        } by {
            if j < k - 1 {
                assert(p[2 * j] == Piece::Node(elems[j].node.unwrap()));
            }
        }
        lemma_printed_concat(p, e, true);
        lemma_printed_concat(p, e, false);
        lemma_printed_short(e, true);
        lemma_printed_short(e, false);
    }
}

/// Separators between elements are reused from the list: in the formatted
/// output of a well-formed list, every element but the last is printed as
/// its node followed by the very separator token the list holds after it,
/// and the last element's node comes right after.
pub proof fn separators_reused_between_elements(
    elems: Seq<ElementView>,
    separator: Seq<char>,
    policy: TrailingSeparator,
)
    requires
        well_formed(elems),
        elems.len() > 0,
        separated_pieces(elems, separator, policy) is Some,
    ensures
        forall|j: int|
            0 <= j < elems.len() - 1 ==> {
                &&& (#[trigger] separated_pieces(elems, separator, policy).unwrap()[2 * j])
                    == Piece::Node(elems[j].node.unwrap())
                &&& separated_pieces(elems, separator, policy).unwrap()[2 * j + 1]
                    == Piece::Separator(elems[j].trailing_separator->Token_0)
            },
        separated_pieces(elems, separator, policy).unwrap()[2 * (elems.len() - 1)]
            == Piece::Node(elems.last().node.unwrap()),
{
    let n = elems.len() as int;
    assert(pieces_prefix(elems, n - 1, separator, policy) is Some);
    lemma_prefix_shape(elems, n - 1, separator, policy);
    let p = pieces_prefix(elems, n - 1, separator, policy).unwrap();
    let e = element_pieces(elems, n - 1, separator, policy).unwrap();
    let q = p + e;
    assert(separated_pieces(elems, separator, policy) == Some(q));
    assert forall|j: int| 0 <= j < n - 1 implies {
        &&& (#[trigger] q[2 * j]) == Piece::Node(elems[j].node.unwrap())
        &&& q[2 * j + 1] == Piece::Separator(elems[j].trailing_separator->Token_0)
    } by {
        assert(p[2 * j] == Piece::Node(elems[j].node.unwrap()));
    }
}

/// What is printed after the last node: the separator text (the list's
/// token with its comments, or the created text) when the policy prints it,
/// which `Mandatory` always does and `Allowed` only when the group breaks;
/// otherwise only the comments of the list's token, if it has any.
pub open spec fn trailing_printed(
    slot: SlotView,
    separator: Seq<char>,
    policy: TrailingSeparator,
    group_breaks: bool,
) -> Seq<Seq<char>> {
    let prints = policy == TrailingSeparator::Mandatory || (policy == TrailingSeparator::Allowed
        && group_breaks);
    match slot {
        SlotView::Token(t) => if prints {
            seq![token_text(t)]
        } else {
            comments_kept(t)
        },
        SlotView::Absent => if prints {
            seq![separator]
        } else {
            seq![]
        },
        SlotView::Missing => seq![],
    }
}

/// What is printed of a well-formed, non-empty list that formats: the nodes
/// and separators of all elements but the last (the same whether or not the
/// group breaks), then the last node, then what the policy prints of the
/// trailing separator (see [`trailing_printed`]): under `Allowed` the
/// separator only when the group breaks, under `Omit` never, yet the
/// comments of a trailing token of the list are kept in every case.
pub proof fn trailing_separator_follows_policy(
    elems: Seq<ElementView>,
    separator: Seq<char>,
    policy: TrailingSeparator,
    group_breaks: bool,
)
    requires
        well_formed(elems),
        elems.len() > 0,
        separated_pieces(elems, separator, policy) is Some,
    ensures
        ({
            let head = printed(pieces_prefix(elems, elems.len() - 1, separator, policy).unwrap(), false);
            &&& printed(pieces_prefix(elems, elems.len() - 1, separator, policy).unwrap(), true) == head
            &&& printed(separated_pieces(elems, separator, policy).unwrap(), group_breaks)
                == head.push(elems.last().node.unwrap()) + trailing_printed(
                elems.last().trailing_separator,
                separator,
                policy,
                group_breaks,
            )
        }),
{
    let n = elems.len() as int;
    assert(pieces_prefix(elems, n - 1, separator, policy) is Some);
    lemma_prefix_shape(elems, n - 1, separator, policy);
    let p = pieces_prefix(elems, n - 1, separator, policy).unwrap();
    let e = element_pieces(elems, n - 1, separator, policy).unwrap();
    assert(separated_pieces(elems, separator, policy) == Some(p + e));
    lemma_printed_concat(p, e, group_breaks);
    lemma_printed_short(e, group_breaks);
    let head = printed(p, false);
    let node = elems.last().node.unwrap();
    let tail = trailing_printed(elems.last().trailing_separator, separator, policy, group_breaks);
    if e.len() == 1 {
        assert(tail =~= Seq::<Seq<char>>::empty());
        assert(printed(p + e, group_breaks) =~= head.push(node) + tail);
    } else {
        assert(printed_piece(e[1], group_breaks) =~= tail);
        assert(printed(p + e, group_breaks) =~= head.push(node) + tail);
    }
}

/// The nodes of a list, each followed by its own separator token as printed.
pub open spec fn interleaved(elems: Seq<ElementView>) -> Seq<Seq<char>>
    decreases elems.len(),
{
    if elems.len() == 0 {
        seq![]
    } else {
        interleaved(elems.drop_last()) + seq![
            elems.last().node.unwrap(),
            token_text(elems.last().trailing_separator->Token_0),
        ]
    }
}

/// Every node present and every slot a token.
pub open spec fn complete(elems: Seq<ElementView>) -> bool {
    forall|i: int|
        0 <= i < elems.len() ==> (#[trigger] elems[i]).node is Some && elems[i].trailing_separator is Token
}

/// The elements before the last print as their nodes each followed by its
/// separator.
proof fn lemma_prefix_printed(
    elems: Seq<ElementView>,
    k: int,
    separator: Seq<char>,
    policy: TrailingSeparator,
)
    requires
        complete(elems),
        0 <= k < elems.len(),
    ensures
        pieces_prefix(elems, k, separator, policy) is Some,
        printed(pieces_prefix(elems, k, separator, policy).unwrap(), false) == interleaved(
            elems.take(k),
        ),
    decreases k,
{
    if k > 0 {
        lemma_prefix_printed(elems, k - 1, separator, policy);
        let p = pieces_prefix(elems, k - 1, separator, policy).unwrap();
        assert(elems[k - 1].node is Some && elems[k - 1].trailing_separator is Token);
        let e = element_pieces(elems, k - 1, separator, policy).unwrap();
        lemma_printed_concat(p, e, false);
        lemma_printed_short(e, false);
        assert(elems.take(k).drop_last() =~= elems.take(k - 1));
        assert(elems.take(k).last() == elems[k - 1]);
    } else {
        assert(elems.take(0) =~= Seq::<ElementView>::empty());
    }
}

/// When every element of the list has its node and its separator token and
/// the policy prints a trailing separator in a broken group (`Allowed` or
/// `Mandatory`), a broken group prints each node followed by its own
/// separator, the last one included.
pub proof fn every_separator_printed_when_group_breaks(
    elems: Seq<ElementView>,
    separator: Seq<char>,
    policy: TrailingSeparator,
)
    requires
        complete(elems),
        policy == TrailingSeparator::Allowed || policy == TrailingSeparator::Mandatory,
    ensures
        separated_pieces(elems, separator, policy) is Some,
        printed(separated_pieces(elems, separator, policy).unwrap(), true) == interleaved(elems),
{
    let n = elems.len() as int;
    if n == 0 {
        assert(separated_pieces(elems, separator, policy) == Some(Seq::<Piece>::empty()));
        assert(printed(Seq::<Piece>::empty(), true) =~= Seq::<Seq<char>>::empty());
    } else {
        assert(elems[n - 1].node is Some && elems[n - 1].trailing_separator is Token);
        lemma_prefix_printed(elems, n - 1, separator, policy);
        assert(element_pieces(elems, n - 1, separator, policy) is Some);
        assert(well_formed(elems));
        trailing_separator_follows_policy(elems, separator, policy, true);
        assert(elems.drop_last() =~= elems.take(n - 1));
        assert(printed(separated_pieces(elems, separator, policy).unwrap(), true)
            =~= interleaved(elems));
    }
}

} // verus!
