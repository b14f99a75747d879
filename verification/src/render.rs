//! How messages, invoices and amounts are shown.
use vstd::prelude::*;

use crate::agent::{message_views, ChatMessage, ChatRole, MessageView};
use crate::text;
use crate::text::{
    contains_text, decimal_text, find_from, lemma_position, lemma_position_from, position_of,
    text_between, to_chars, trim, trimmed, views,
};

verus! {

// ── Messages ────────────────────────────────────────────────────────────

/// The style of a message.
pub open spec fn role_class_of(role: ChatRole) -> Seq<char> {
    match role {
        ChatRole::System => "system"@,
        ChatRole::User => "user"@,
        ChatRole::Assistant => "assistant"@,
        ChatRole::Tool => "tool"@,
    }
}

/// Who a message is shown to be from.
pub open spec fn role_label_of(role: ChatRole) -> Seq<char> {
    match role {
        ChatRole::System => "system"@,
        ChatRole::User => "you"@,
        ChatRole::Assistant => "agent"@,
        ChatRole::Tool => "tool"@,
    }
}

/// The style of a message.
pub fn role_class(role: ChatRole) -> (class: String)
    ensures
        class@ == "message "@ + role_class_of(role),
{
    "message ".to_owned().concat(
        match role {
            ChatRole::System => "system",
            ChatRole::User => "user",
            ChatRole::Assistant => "assistant",
            ChatRole::Tool => "tool",
        },
    )
}

/// Who a message is shown to be from.
pub fn role_label(role: ChatRole) -> (label: &'static str)
    ensures
        label@ == role_label_of(role),
{
    match role {
        ChatRole::System => "system",
        ChatRole::User => "you",
        ChatRole::Assistant => "agent",
        ChatRole::Tool => "tool",
    }
}

/// Whether a message is shown: those of user and agent always, the others for debugging.
pub open spec fn is_shown(role: ChatRole, debug: bool) -> bool {
    debug || role is User || role is Assistant
}

/// The messages that are shown, in order.
pub open spec fn shown_messages(messages: Seq<MessageView>, debug: bool) -> Seq<MessageView> {
    messages.filter(|message: MessageView| is_shown(message.role, debug))
}

/// The messages that are shown, in order.
pub fn visible_messages(messages: &Vec<ChatMessage>, debug: bool) -> (shown: Vec<ChatMessage>)
    ensures
        message_views(shown@) == shown_messages(message_views(messages@), debug),
{
    let mut shown: Vec<ChatMessage> = Vec::new();
    let mut i: usize = 0;
    proof {
        reveal(Seq::filter);
        assert(message_views(shown@) =~= shown_messages(message_views(messages@.take(0)), debug));
    }
    while i < messages.len()
        invariant
            i <= messages@.len(),
            message_views(shown@) == shown_messages(message_views(messages@.take(i as int)), debug),
        decreases messages@.len() - i,
    {
        proof {
            reveal(Seq::filter);
            assert(message_views(messages@.take(i + 1)).drop_last() =~= message_views(
                messages@.take(i as int),
            ));
            assert(message_views(messages@.take(i + 1)).last() == messages@[i as int]@);
        }
        let message = &messages[i];
        let show = match message.role {
            ChatRole::User => true,
            ChatRole::Assistant => true,
            _ => debug,
        };
        if show {
            let ghost before = message_views(shown@);
            shown.push(ChatMessage { role: message.role, body: message.body.clone() });
            assert(message_views(shown@) =~= before.push(messages@[i as int]@));
        }
        i += 1;
    }
    assert(messages@.take(i as int) =~= messages@);
    shown
}

// ── Invoices in messages ────────────────────────────────────────────────

/// A text without its invoice tags, and the invoices that they held. A tag runs to the nearest end
/// tag after it. One without an end tag is no tag, and one that holds only blanks no invoice.
pub open spec fn split_tags(text: Seq<char>) -> (Seq<char>, Seq<Seq<char>>)
    decreases text.len(),
{
    match position_of(text, "<invoice>"@) {
        None => (text, Seq::empty()),
        Some(start) => {
            let after = text.skip(start + "<invoice>"@.len());
            match position_of(after, "</invoice>"@) {
                None => (text, Seq::empty()),
                Some(end) => {
                    let rest = after.skip(end + "</invoice>"@.len());
                    proof {
                        reveal_strlit("<invoice>");
                        reveal_strlit("</invoice>");
                        lemma_position(text, "<invoice>"@);
                        lemma_position(after, "</invoice>"@);
                    }
                    let (clean, invoices) = split_tags(rest);
                    let invoice = trimmed(after.take(end));
                    (
                        text.take(start) + clean,
                        if invoice.len() > 0 {
                            seq![invoice] + invoices
                        } else {
                            invoices
                        },
                    )
                },
            }
        },
    }
}

/// Takes the invoice tags out of a text.
pub fn extract_invoice_tags(text: &str) -> (split: (String, Vec<String>))
    ensures
        split.0@ == split_tags(text@).0,
        views(split.1@) == split_tags(text@).1,
{
    let chars = to_chars(text);
    let opening = to_chars("<invoice>");
    let closing = to_chars("</invoice>");
    let mut clean = String::new();
    let mut invoices: Vec<String> = Vec::new();
    let mut pos: usize = 0;
    let end: usize = chars.len();
    assert(chars@.skip(0) =~= chars@);
    assert(views(invoices@) =~= Seq::empty());
    assert(clean@ + split_tags(chars@).0 =~= split_tags(chars@).0);
    assert(views(invoices@) + split_tags(chars@).1 =~= split_tags(chars@).1);
    loop
        invariant_except_break
            split_tags(text@).0 == clean@ + split_tags(chars@.skip(pos as int)).0,
            split_tags(text@).1 == views(invoices@) + split_tags(chars@.skip(pos as int)).1,
        invariant
            chars@ == text@,
            end == chars@.len(),
            pos <= end,
            opening@ == "<invoice>"@,
            closing@ == "</invoice>"@,
        ensures
            split_tags(text@).0 == clean@ + chars@.skip(pos as int),
            split_tags(text@).1 == views(invoices@),
        decreases end - pos,
    {
        let opened = find_from(&chars, &opening, pos);
        let ghost rest = chars@.skip(pos as int);
        proof {
            reveal_strlit("<invoice>");
            reveal_strlit("</invoice>");
            lemma_position_from(chars@, opening@, pos as int, opened);
        }
        let Some(start) = opened else {
            assert(views(invoices@) + split_tags(rest).1 =~= views(invoices@));
            break;
        };
        let from: usize = start + opening.len();
        let ghost after = chars@.skip(from as int);
        assert(after =~= rest.skip(start - pos + opening@.len()));
        let found = find_from(&chars, &closing, from);
        proof {
            lemma_position_from(chars@, closing@, from as int, found);
        }
        match found {
            Some(stop) => {
                let ghost before = views(invoices@);
                let ghost shown = clean@;
                clean.append(text_between(&chars, pos, start).as_str());
                assert(clean@ =~= shown + rest.take(start - pos));
                let held = text_between(&chars, from, stop);
                assert(held@ =~= after.take(stop - from));
                let invoice = trim(held.as_str());
                let next: usize = stop + closing.len();
                let ghost tail = chars@.skip(next as int);
                assert(tail =~= after.skip(stop - from + closing@.len()));
                if !invoice.as_str().is_empty() {
                    let ghost kept = invoice@;
                    invoices.push(invoice);
                    assert(views(invoices@) =~= before.push(kept));
                    assert(before + (seq![kept] + split_tags(tail).1) =~= before.push(kept)
                        + split_tags(tail).1);
                }
                assert(shown + (rest.take(start - pos) + split_tags(tail).0) =~= clean@
                    + split_tags(tail).0);
                pos = next;
            },
            None => {
                assert(split_tags(rest).1 =~= Seq::empty());
                assert(views(invoices@) + split_tags(rest).1 =~= views(invoices@));
                break;
            },
        }
    }
    clean.append(text_between(&chars, pos, end).as_str());
    assert(chars@.subrange(pos as int, end as int) =~= chars@.skip(pos as int));
    (clean, invoices)
}

/// A text without an invoice tag is shown as it is, and holds no invoice.
pub proof fn law_untagged_text_is_unchanged(text: Seq<char>)
    requires
        !contains_text(text, "<invoice>"@),
    ensures
        split_tags(text) == (text, Seq::<Seq<char>>::empty()),
{
}

/// Of plain text, a tag and a rest, the plain text and what the rest shows are shown. The tag's
/// invoice comes before those of the rest, trimmed, unless nothing is left of it.
pub proof fn law_tags_are_taken_in_order(front: Seq<char>, held: Seq<char>, rest: Seq<char>)
    requires
        !front.contains('<'),
        !held.contains('<'),
    ensures
        split_tags(front + "<invoice>"@ + held + "</invoice>"@ + rest) == (
            front + split_tags(rest).0,
            if trimmed(held).len() > 0 {
                seq![trimmed(held)] + split_tags(rest).1
            } else {
                split_tags(rest).1
            },
        ),
{
    let (opening, closing) = ("<invoice>"@, "</invoice>"@);
    reveal_strlit("<invoice>");
    reveal_strlit("</invoice>");
    let text = front + opening + held + closing + rest;
    let after = held + closing + rest;
    lemma_found_behind(front, opening, after);
    assert(text =~= front + opening + after);
    assert(text.skip(front.len() as int + opening.len()) =~= after);
    assert(text.take(front.len() as int) =~= front);
    lemma_found_behind(held, closing, rest);
    assert(after.skip(held.len() as int + closing.len()) =~= rest);
    assert(after.take(held.len() as int) =~= held);
}

/// A tag behind a text without an angle bracket is found there.
proof fn lemma_found_behind(front: Seq<char>, tag: Seq<char>, rest: Seq<char>)
    requires
        !front.contains('<'),
        tag.len() > 0,
        tag[0] == '<',
    ensures
        position_of(front + tag + rest, tag) == Some(front.len() as int),
{
    let text = front + tag + rest;
    let n = front.len() as int;
    assert(text.subrange(n, n + tag.len()) =~= tag);
    assert forall|j: int| 0 <= j < n implies !text::occurs_at(text, tag, j) by {
        if text::occurs_at(text, tag, j) {
            assert(text.subrange(j, j + tag.len())[0] == front[j]);
            assert(front.contains('<'));
        }
    }
    assert(text::first_at(text, tag, 0, n));
    lemma_position(text, tag);
}

/// Every invoice that is taken out of a text is trimmed, and none is empty.
pub proof fn law_invoices_are_trimmed(text: Seq<char>, i: int)
    requires
        0 <= i < split_tags(text).1.len(),
    ensures
        split_tags(text).1[i].len() > 0,
        trimmed(split_tags(text).1[i]) == split_tags(text).1[i],
    decreases text.len(),
{
    reveal_strlit("<invoice>");
    reveal_strlit("</invoice>");
    lemma_position(text, "<invoice>"@);
    if let Some(start) = position_of(text, "<invoice>"@) {
        let after = text.skip(start + "<invoice>"@.len());
        lemma_position(after, "</invoice>"@);
        if let Some(end) = position_of(after, "</invoice>"@) {
            let rest = after.skip(end + "</invoice>"@.len());
            let invoice = trimmed(after.take(end));
            if invoice.len() > 0 {
                if i == 0 {
                    lemma_trimmed_twice(after.take(end));
                } else {
                    law_invoices_are_trimmed(rest, i - 1);
                }
            } else {
                law_invoices_are_trimmed(rest, i);
            }
        }
    }
}

proof fn lemma_trimmed_start(text: Seq<char>)
    ensures
        text::trimmed_start(text).len() > 0 ==> !text::white_space(text::trimmed_start(text)[0]),
    decreases text.len(),
{
    if text.len() > 0 && text::white_space(text[0]) {
        lemma_trimmed_start(text.skip(1));
    }
}

proof fn lemma_trimmed_end(text: Seq<char>)
    ensures
        text::trimmed_end(text).len() <= text.len(),
        text::trimmed_end(text) == text.take(text::trimmed_end(text).len() as int),
        text::trimmed_end(text).len() > 0 ==> !text::white_space(text::trimmed_end(text).last()),
    decreases text.len(),
{
    if text.len() > 0 && text::white_space(text.last()) {
        lemma_trimmed_end(text.drop_last());
        assert(text.drop_last().take(text::trimmed_end(text).len() as int) =~= text.take(
            text::trimmed_end(text).len() as int,
        ));
    } else {
        assert(text.take(text.len() as int) =~= text);
    }
}

proof fn lemma_trimmed_twice(text: Seq<char>)
    ensures
        trimmed(trimmed(text)) == trimmed(text),
{
    let front = text::trimmed_start(text);
    let once = trimmed(text);
    lemma_trimmed_start(text);
    lemma_trimmed_end(front);
    if once.len() > 0 {
        assert(once[0] == front[0]);
        assert(text::trimmed_start(once) == once);
        assert(text::trimmed_end(once) == once);
    }
}

// ── Amounts and long texts ──────────────────────────────────────────────

/// A balance as it is shown.
pub fn format_balance(sats: u64) -> (shown: String)
    ensures
        shown@ == decimal_text(sats as nat) + " sats"@,
{
    text::decimal(sats).concat(" sats")
}

/// A text of which, where it is longer than the limit, only the front and the end are shown.
pub open spec fn shortened(value: Seq<char>, limit: nat) -> Seq<char> {
    if value.len() <= limit {
        value
    } else {
        let head = limit / 2;
        let tail = if limit == 0 {
            0
        } else {
            limit - head - 1
        };
        value.take(head as int) + "..."@ + value.skip(value.len() - tail)
    }
}

/// Shows only the front and the end of a text that is longer than the limit.
pub fn truncate_middle(value: &str, limit: usize) -> (shown: String)
    ensures
        shown@ == shortened(value@, limit as nat),
{
    let chars = to_chars(value);
    if chars.len() <= limit {
        return value.to_owned();
    }
    let head: usize = limit / 2;
    let tail: usize = if limit == 0 {
        0
    } else {
        limit - head - 1
    };
    let front = text_between(&chars, 0, head);
    let end = text_between(&chars, chars.len() - tail, chars.len());
    assert(front@ =~= value@.take(head as int));
    assert(end@ =~= value@.skip(value@.len() - tail));
    front.concat("...").concat(end.as_str())
}

/// A text that is longer than the limit is shown with two characters more than the limit, because
/// three dots take the place of one character. What stands before the dots is the front of the
/// text, and what stands after them its end.
pub proof fn law_shortened_texts_are_short(value: Seq<char>, limit: nat)
    requires
        0 < limit < value.len(),
    ensures
        shortened(value, limit).len() == limit + 2,
        shortened(value, limit).take((limit / 2) as int) == value.take((limit / 2) as int),
        shortened(value, limit).skip((limit / 2 + 3) as int) == value.skip(
            value.len() - (limit - limit / 2 - 1),
        ),
{
    reveal_strlit("...");
    let shown = shortened(value, limit);
    assert(shown.take((limit / 2) as int) =~= value.take((limit / 2) as int));
    assert(shown.skip((limit / 2 + 3) as int) =~= value.skip(value.len() - (limit - limit / 2 - 1)));
}

// ── Markdown and QR codes ───────────────────────────────────────────────

/// The HTML of a Markdown text, with the extensions for struck out text and tables or without.
pub uninterp spec fn markdown_html(
    input: Seq<char>,
    strikethrough: bool,
    tables: bool,
) -> Seq<char>;

/// The SVG image of the QR code of a text in these colors, whose sides are as near to `size` as
/// whole modules allow. A text that is too long for a QR code has none.
pub uninterp spec fn qr_image(
    data: Seq<char>,
    size: u32,
    dark: Seq<char>,
    light: Seq<char>,
) -> Option<Seq<char>>;

/// `pulldown_cmark::Parser::new_ext` and `pulldown_cmark::html::push_html`, a function of the text
/// and the options alone.
#[verifier::external_body]
fn render_markdown(input: &str, strikethrough: bool, tables: bool) -> (html: String)
    ensures
        html@ == markdown_html(input@, strikethrough, tables),
{
    let mut options = pulldown_cmark::Options::empty();
    options.set(pulldown_cmark::Options::ENABLE_STRIKETHROUGH, strikethrough);
    options.set(pulldown_cmark::Options::ENABLE_TABLES, tables);
    let mut output = String::new();
    pulldown_cmark::html::push_html(
        &mut output,
        pulldown_cmark::Parser::new_ext(input, options),
    );
    output
}

/// `qrcode::QrCode::new` and its rendering as SVG, a function of the text, the size and the colors
/// alone. The sizes that are asked of it stay far from where its arithmetic would overflow.
#[verifier::external_body]
fn render_qr(data: &str, size: u32, dark: &str, light: &str) -> (svg: Option<String>)
    requires
        size <= 10000,
    ensures
        text::optional_view(svg) == qr_image(data@, size, dark@, light@),
{
    qrcode::QrCode::new(data.as_bytes()).ok().map(
        |code|
            code.render::<qrcode::render::svg::Color>()
                .min_dimensions(size, size)
                .max_dimensions(size, size)
                .dark_color(qrcode::render::svg::Color(dark))
                .light_color(qrcode::render::svg::Color(light))
                .build(),
    )
}

/// The HTML of a message: Markdown with struck out text and tables.
pub fn markdown_to_html(input: &str) -> (html: String)
    ensures
        html@ == markdown_html(input@, true, true),
{
    render_markdown(input, true, true)
}

/// The QR code of a text.
pub fn generate_qr_svg(data: &str) -> (svg: Option<String>)
    ensures
        text::optional_view(svg) == qr_image(data@, 180, "#0b1013"@, "#ffffff"@),
{
    render_qr(data, 180, "#0b1013", "#ffffff")
}

/// A message as it is shown.
#[derive(Debug)]
pub struct RenderedMessage {
    pub class: String,
    pub label: &'static str,
    pub html: String,
    pub invoices: Vec<RenderedInvoice>,
}

/// An invoice of a message as it is shown.
#[derive(Debug)]
pub struct RenderedInvoice {
    pub invoice: String,
    pub abbreviated: String,
    pub qr_svg: Option<String>,
}

/// Whether this is how an invoice is shown.
pub open spec fn invoice_shown(shown: RenderedInvoice, invoice: Seq<char>) -> bool {
    &&& shown.invoice@ == invoice
    &&& shown.abbreviated@ == shortened(invoice, 32)
    &&& text::optional_view(shown.qr_svg) == qr_image(invoice, 180, "#0b1013"@, "#ffffff"@)
}

/// An invoice as it is shown.
pub fn render_invoice_widget(invoice: String) -> (shown: RenderedInvoice)
    ensures
        invoice_shown(shown, invoice@),
{
    let abbreviated = truncate_middle(invoice.as_str(), 32);
    let qr_svg = generate_qr_svg(invoice.as_str());
    RenderedInvoice { invoice, abbreviated, qr_svg }
}

/// A message as it is shown: its text as HTML without the invoice tags, and the invoices.
pub fn render_message(message: &ChatMessage) -> (shown: RenderedMessage)
    ensures
        shown.class@ == "message "@ + role_class_of(message.role),
        shown.label@ == role_label_of(message.role),
        shown.html@ == markdown_html(split_tags(message.body@).0, true, true),
        shown.invoices@.len() == split_tags(message.body@).1.len(),
        forall|i: int|
            0 <= i < shown.invoices@.len() ==> invoice_shown(
                #[trigger] shown.invoices@[i],
                split_tags(message.body@).1[i],
            ),
{
    let (clean, invoices) = extract_invoice_tags(message.body.as_str());
    let ghost found = views(invoices@);
    let mut widgets: Vec<RenderedInvoice> = Vec::new();
    let mut i: usize = 0;
    while i < invoices.len()
        invariant
            i <= invoices@.len(),
            found == views(invoices@),
            widgets@.len() == i,
            forall|j: int| 0 <= j < i ==> invoice_shown(#[trigger] widgets@[j], found[j]),
        decreases invoices@.len() - i,
    {
        assert(found[i as int] == invoices@[i as int]@);
        widgets.push(render_invoice_widget(invoices[i].clone()));
        i += 1;
    }
    RenderedMessage {
        class: role_class(message.role),
        label: role_label(message.role),
        html: markdown_to_html(clean.as_str()),
        invoices: widgets,
    }
}

// ── Laws ────────────────────────────────────────────────────────────────

/// Messages of different people are told apart, by their style and by their label, and those of the
/// user and of the agent are labelled as such.
pub proof fn law_roles_are_told_apart(a: ChatRole, b: ChatRole)
    ensures
        role_class_of(a) == role_class_of(b) ==> a == b,
        role_label_of(a) == role_label_of(b) ==> a == b,
        role_label_of(ChatRole::User) == "you"@,
        role_label_of(ChatRole::Assistant) == "agent"@,
{
    reveal_strlit("system");
    reveal_strlit("user");
    reveal_strlit("assistant");
    reveal_strlit("tool");
    reveal_strlit("you");
    reveal_strlit("agent");
    assert("system"@.len() == 6 && "user"@.len() == 4 && "assistant"@.len() == 9 && "tool"@.len()
        == 4 && "you"@.len() == 3 && "agent"@.len() == 5);
    assert("user"@[0] != "tool"@[0]);
}

/// Every message of user and agent is shown, whoever else spoke, and all messages for debugging.
/// The messages come in order, each as it is, and no other message is shown.
pub proof fn law_messages_of_the_dialogue_are_shown(
    messages: Seq<MessageView>,
    message: MessageView,
    debug: bool,
)
    ensures
        shown_messages(messages.push(message), debug) == if debug || message.role is User
            || message.role is Assistant {
            shown_messages(messages, debug).push(message)
        } else {
            shown_messages(messages, debug)
        },
        shown_messages(Seq::empty(), debug).len() == 0,
{
    reveal(Seq::filter);
    assert(messages.push(message).drop_last() =~= messages);
}

/// A text that fits the limit is shown as it is.
pub proof fn law_short_texts_are_unchanged(value: Seq<char>, limit: nat)
    requires
        value.len() <= limit,
    ensures
        shortened(value, limit) == value,
{
}

/// A tag that is never closed is no tag: the text is shown as it is, with no invoice.
pub proof fn law_open_tags_are_no_tags(front: Seq<char>, rest: Seq<char>)
    requires
        !front.contains('<'),
        !contains_text(rest, "</invoice>"@),
    ensures
        split_tags(front + "<invoice>"@ + rest) == (
            front + "<invoice>"@ + rest,
            Seq::<Seq<char>>::empty(),
        ),
{
    reveal_strlit("<invoice>");
    lemma_found_behind(front, "<invoice>"@, rest);
    let text = front + "<invoice>"@ + rest;
    assert(text.skip(front.len() as int + "<invoice>"@.len()) =~= rest);
}

/// An invoice is shown as it is, with its QR code, and in short by its front and its end.
pub proof fn law_invoices_are_shown_as_they_are(shown: RenderedInvoice, invoice: Seq<char>)
    requires
        invoice_shown(shown, invoice),
    ensures
        shown.invoice@ == invoice,
        invoice.len() <= 32 ==> shown.abbreviated@ == invoice,
        invoice.len() > 32 ==> shown.abbreviated@ == invoice.take(16) + "..."@ + invoice.skip(
            invoice.len() - 15,
        ),
        text::optional_view(shown.qr_svg) == qr_image(invoice, 180, "#0b1013"@, "#ffffff"@),
{
}

/// A balance is shown as its number of satoshis.
pub proof fn law_balances_are_shown(sats: u64, shown: String)
    requires
        call_ensures(format_balance, (sats,), shown),
    ensures
        shown@ == decimal_text(sats as nat) + " sats"@,
{
}

proof fn lemma_found_first(front: Seq<char>, tag: Seq<char>, rest: Seq<char>)
    requires
        tag.len() > 0,
        !contains_text((front + tag).drop_last(), tag),
    ensures
        position_of(front + tag + rest, tag) == Some(front.len() as int),
{
    let text = front + tag + rest;
    let n = front.len() as int;
    let before = (front + tag).drop_last();
    assert(text.subrange(n, n + tag.len()) =~= tag);
    assert forall|j: int| 0 <= j < n implies !text::occurs_at(text, tag, j) by {
        if text::occurs_at(text, tag, j) {
            assert(before.subrange(j, j + tag.len()) =~= text.subrange(j, j + tag.len()));
            assert(text::occurs_at(before, tag, j));
        }
    }
    assert(text::first_at(text, tag, 0, n));
    lemma_position(text, tag);
}

/// Whatever else stands in a message, angle brackets too, its first tag is taken out: what stands
/// before the tag is shown as it is, what the tag holds up to the nearest end tag is an invoice,
/// trimmed, unless it is blank, and the rest is gone through in the same way. A tag that is never
/// closed ends that: the text from there on is shown as it is.
pub proof fn law_first_tags_are_taken_first(front: Seq<char>, held: Seq<char>, rest: Seq<char>)
    requires
        !contains_text((front + "<invoice>"@).drop_last(), "<invoice>"@),
    ensures
        !contains_text((held + "</invoice>"@).drop_last(), "</invoice>"@) ==> split_tags(
            front + "<invoice>"@ + held + "</invoice>"@ + rest,
        ) == (
            front + split_tags(rest).0,
            if trimmed(held).len() > 0 {
                seq![trimmed(held)] + split_tags(rest).1
            } else {
                split_tags(rest).1
            },
        ),
        !contains_text(held, "</invoice>"@) ==> split_tags(front + "<invoice>"@ + held) == (
            front + "<invoice>"@ + held,
            Seq::<Seq<char>>::empty(),
        ),
{
    let (opening, closing) = ("<invoice>"@, "</invoice>"@);
    reveal_strlit("<invoice>");
    reveal_strlit("</invoice>");
    lemma_found_first(front, opening, held);
    assert((front + opening + held).skip(front.len() as int + opening.len()) =~= held);
    if !contains_text((held + closing).drop_last(), closing) {
        let text = front + opening + held + closing + rest;
        let after = held + closing + rest;
        lemma_found_first(front, opening, after);
        assert(text =~= front + opening + after);
        assert(text.skip(front.len() as int + opening.len()) =~= after);
        assert(text.take(front.len() as int) =~= front);
        lemma_found_first(held, closing, rest);
        assert(after.skip(held.len() as int + closing.len()) =~= rest);
        assert(after.take(held.len() as int) =~= held);
    }
}

/// A message without a tag is shown as its own text, as who it is from, and every invoice of a
/// message is shown, in order.
pub proof fn law_messages_are_shown_as_they_are(message: ChatMessage, shown: RenderedMessage, i: int)
    requires
        call_ensures(render_message, (&message,), shown),
    ensures
        !contains_text(message.body@, "<invoice>"@) ==> shown.html@ == markdown_html(
            message.body@,
            true,
            true,
        ) && shown.invoices@.len() == 0,
        shown.label@ == role_label_of(message.role),
        role_class_of(message.role).is_suffix_of(shown.class@),
        shown.invoices@.len() == split_tags(message.body@).1.len(),
        0 <= i < shown.invoices@.len() ==> shown.invoices@[i].invoice@ == split_tags(
            message.body@,
        ).1[i],
{
    let class = role_class_of(message.role);
    assert(shown.class@.subrange(shown.class@.len() - class.len(), shown.class@.len() as int)
        =~= class);
    if 0 <= i < shown.invoices@.len() {
        assert(invoice_shown(shown.invoices@[i], split_tags(message.body@).1[i]));
    }
}

} // verus!
