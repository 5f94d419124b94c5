//! What a bundle holds, what a picture's commands do, and how texts are taken apart.

use vstd::prelude::*;

use crate::bundle::{
    checked_binary, deflated, entries_of, image_of, is_ordered, law_packing_order, magic, ordered,
    payload_of, sealed, BundleEntry, EntryView, ExtractErrorView, InputView,
};
use crate::graphics::{delete_commands, frame_bytes, shown_graphics, terminal_geometry, WindowSize};
use crate::text::{
    decimal, is_control_spec, is_digit, is_white, lemma_decimal_value, lemma_first_index, lex_lt,
    lines_of, lower_spec, number_digits, number_value,
};
use vstd::bytes::{spec_u32_to_le_bytes, spec_u64_to_le_bytes};

verus! {

proof fn lemma_entry(image_len: nat, inputs: Seq<InputView>, k: int)
    requires
        0 <= k < inputs.len(),
    ensures
        entries_of(image_len, inputs).len() == inputs.len(),
        ({
            let entry = entries_of(image_len, inputs)[k];
            &&& entry.os == inputs[k].os
            &&& entry.arch == inputs[k].arch
            &&& entry.uncompressed_len == inputs[k].binary.len()
            &&& entry.crc32 == crate::bundle::crc32_of(inputs[k].binary)
            &&& entry.compressed_len == deflated(inputs[k].binary, 6).len()
            &&& entry.offset == image_len + payload_of(inputs.take(k)).len()
        }),
    decreases inputs.len(),
{
    let front = inputs.drop_last();
    lemma_entries_len(image_len, front);
    if k < front.len() {
        lemma_entry(image_len, front, k);
        assert(front[k] == inputs[k]);
        assert(front.take(k) =~= inputs.take(k));
    } else {
        assert(inputs.take(k) =~= front);
    }
}

proof fn lemma_entries_len(image_len: nat, inputs: Seq<InputView>)
    ensures
        entries_of(image_len, inputs).len() == inputs.len(),
    decreases inputs.len(),
{
    if inputs.len() > 0 {
        lemma_entries_len(image_len, inputs.drop_last());
    }
}

/// An index tells of each packed binary its platform, its length, its checksum and where it lies:
/// behind the image and the binaries before it.
pub proof fn law_entry_tells_its_binary(image_len: nat, inputs: Seq<InputView>, k: int)
    requires
        0 <= k < inputs.len(),
    ensures
        entries_of(image_len, inputs).len() == inputs.len(),
        ({
            let entry = entries_of(image_len, inputs)[k];
            &&& entry.os == inputs[k].os
            &&& entry.arch == inputs[k].arch
            &&& entry.uncompressed_len == inputs[k].binary.len()
            &&& entry.crc32 == crate::bundle::crc32_of(inputs[k].binary)
            &&& entry.compressed_len == deflated(inputs[k].binary, 6).len()
            &&& entry.offset == image_len + payload_of(inputs.take(k)).len()
            &&& BundleEntry::asset_key_spec(entry) == inputs[k].os + seq!['-'] + inputs[k].arch
        }),
        k == 0 ==> entries_of(image_len, inputs)[k].offset == image_len,
        k + 1 < inputs.len() ==> entries_of(image_len, inputs)[k + 1].offset == entries_of(
            image_len,
            inputs,
        )[k].offset + entries_of(image_len, inputs)[k].compressed_len,
{
    reveal_strlit("-");
    assert("-"@ =~= seq!['-']);
    lemma_entry(image_len, inputs, k);
    if k == 0 {
        assert(inputs.take(0) =~= Seq::<InputView>::empty());
    }
    if k + 1 < inputs.len() {
        lemma_entry(image_len, inputs, k + 1);
        assert(inputs.take(k + 1).drop_last() =~= inputs.take(k));
        assert(inputs.take(k + 1).last() == inputs[k]);
    }
}

/// A sealed file is the payload, the index, where the index begins, how long it is, the format's
/// number and eight letters that tell it apart, in that order.
pub proof fn law_sealed_file(payload: Seq<u8>, index: Seq<u8>)
    ensures
        sealed(payload, index) == payload + index + (spec_u64_to_le_bytes(payload.len() as u64)
            + spec_u64_to_le_bytes(index.len() as u64) + spec_u32_to_le_bytes(1u32) + seq![
            0x48u8,
            0x45u8,
            0x52u8,
            0x44u8,
            0x52u8,
            0x42u8,
            0x4eu8,
            0x44u8,
        ]),
        magic() == seq![0x48u8, 0x45u8, 0x52u8, 0x44u8, 0x52u8, 0x42u8, 0x4eu8, 0x44u8],
{
}

/// The image of a carrier is its front, as long as its index says, and all of a file that carries
/// nothing.
pub proof fn law_image_is_the_front(carrier: Seq<u8>, n: u64)
    ensures
        image_of(carrier, None) == carrier,
        n <= carrier.len() ==> image_of(carrier, Some(n)) == carrier.take(n as int),
{
    if n == carrier.len() {
        assert(carrier.take(n as int) =~= carrier);
    }
}

/// A binary is taken out of a bundle only whole: of the length and with the checksum that its
/// entry tells; what else may be wrong is told apart.
pub proof fn law_binary_comes_out_whole(data: Result<Seq<u8>, Seq<char>>, entry: EntryView)
    ensures
        match checked_binary(data, entry) {
            Ok(binary) => data == Ok::<Seq<u8>, Seq<char>>(binary) && binary.len()
                == entry.uncompressed_len && crate::bundle::crc32_of(binary) == entry.crc32,
            Err(ExtractErrorView::Inflate { reason }) => data == Err::<Seq<u8>, Seq<char>>(reason),
            Err(ExtractErrorView::Length { expected, got }) => data is Ok && expected
                == entry.uncompressed_len && got == data->Ok_0.len() && expected != got,
            Err(ExtractErrorView::Checksum) => data is Ok && data->Ok_0.len()
                == entry.uncompressed_len && crate::bundle::crc32_of(data->Ok_0) != entry.crc32,
            Err(ExtractErrorView::Truncated) => false,
        },
{
}

proof fn lemma_lex_first_difference(front: Seq<char>, a: Seq<char>, b: Seq<char>)
    requires
        a.len() > 0,
        b.len() > 0,
        a[0] != b[0],
    ensures
        lex_lt(front + a, front + b) <==> (a[0] as u32) < (b[0] as u32),
    decreases front.len(),
{
    if front.len() == 0 {
        assert(front + a =~= a);
        assert(front + b =~= b);
    } else {
        let rest = front.drop_first();
        lemma_lex_first_difference(rest, a, b);
        assert((front + a).drop_first() =~= rest + a);
        assert((front + b).drop_first() =~= rest + b);
    }
}

/// Binaries are packed in the order of their systems, and those of one system in the order of
/// their architectures; texts are in order by the first character in which they differ, and a
/// text comes before a longer one that begins with it.
pub proof fn law_packing_order_is_by_platform(
    inputs: Seq<InputView>,
    i: int,
    j: int,
    front: Seq<char>,
    a: Seq<char>,
    b: Seq<char>,
)
    ensures
        0 <= i < j < ordered(inputs).len() ==> {
            let x = ordered(inputs)[i];
            let y = ordered(inputs)[j];
            &&& !lex_lt(y.os, x.os)
            &&& x.os == y.os ==> !lex_lt(y.arch, x.arch)
        },
        a.len() > 0 && b.len() > 0 && a[0] != b[0] ==> (lex_lt(front + a, front + b) <==> (
        a[0] as u32) < (b[0] as u32)),
        b.len() > 0 ==> lex_lt(front, front + b),
    decreases front.len(),
{
    law_packing_order(inputs);
    if 0 <= i < j < ordered(inputs).len() {
        assert(is_ordered(ordered(inputs)));
        let x = ordered(inputs)[i];
        let y = ordered(inputs)[j];
        assert(!crate::bundle::platform_before(y, x));
    }
    if a.len() > 0 && b.len() > 0 && a[0] != b[0] {
        lemma_lex_first_difference(front, a, b);
    }
    if b.len() > 0 && front.len() > 0 {
        law_packing_order_is_by_platform(inputs, i, j, front.drop_first(), a, b);
        assert((front + b).drop_first() =~= front.drop_first() + b);
    }
}

/// Pictures are drawn after the frame, with the cursor saved before and put back behind; where
/// there are none, or they cannot be drawn, the frame is written as it is.
pub proof fn law_pictures_leave_the_cursor(encoded: Seq<u8>, graphics: Seq<u8>)
    ensures
        shown_graphics(graphics, true) == graphics,
        shown_graphics(graphics, false).len() == 0,
        frame_bytes(encoded, Seq::empty()) == encoded,
        graphics.len() > 0 ==> frame_bytes(encoded, graphics) == encoded + seq![0x1bu8, 0x37u8]
            + graphics + seq![0x1bu8, 0x38u8],
{
}

/// Each picture that was drawn is taken away by its own id, one command behind the other.
pub proof fn law_pictures_are_taken_away(ids: Seq<u32>, id: u32)
    ensures
        delete_commands(Seq::empty()).len() == 0,
        delete_commands(ids.push(id)) == delete_commands(ids) + ("\u{1b}_Ga=d,d=I,i="@ + decimal(
            id as nat,
        ) + ",q=2;\u{1b}\\"@),
{
    assert(ids.push(id).drop_last() =~= ids);
}

/// The terminal's size is taken as it is told, and is eighty columns by twenty-four rows where it
/// is not; a cell's size is told only for pictures, is the window's shared out, and is eight by
/// sixteen where that is not known.
pub proof fn law_terminal_sizes(
    size: Option<(u16, u16)>,
    enabled: bool,
    window: Option<WindowSize>,
    r: (u16, u16, u32, u32),
)
    requires
        call_ensures(terminal_geometry, (size, enabled, window), r),
    ensures
        size is Some ==> r.0 == (size->0).0 && r.1 == (size->0).1,
        size is None ==> r.0 == 80 && r.1 == 24,
        !enabled ==> r.2 == 0 && r.3 == 0,
        enabled && window is None ==> r.2 == 8 && r.3 == 16,
        enabled && window is Some && (window->0).columns > 0 && (window->0).rows > 0 && (
        window->0).width >= (window->0).columns && (window->0).height >= (window->0).rows ==> r.2
            == (window->0).width as int / (window->0).columns as int && r.3 == (
        window->0).height as int / (window->0).rows as int,
        enabled ==> r.2 >= 1 && r.3 >= 1,
{
    if enabled && window is Some && (window->0).columns > 0 && (window->0).rows > 0 && (
    window->0).width >= (window->0).columns && (window->0).height >= (window->0).rows {
        let w = window->0;
        assert(w.width as int / w.columns as int >= 1) by (nonlinear_arith)
            requires
                w.width >= w.columns,
                w.columns > 0,
        ;
        assert(w.height as int / w.rows as int >= 1) by (nonlinear_arith)
            requires
                w.height >= w.rows,
                w.rows > 0,
        ;
    }
}

/// A text is taken apart at the ends of its lines: each line comes out without its end, in order,
/// and the last one with or without an end of its own.
pub proof fn law_lines(line: Seq<char>, rest: Seq<char>)
    requires
        !line.contains('\n'),
    ensures
        line.len() > 0 && line.last() == '\r' ==> lines_of(line + seq!['\n'] + rest) == seq![
            line.drop_last(),
        ] + lines_of(rest),
        line.len() == 0 || line.last() != '\r' ==> lines_of(line + seq!['\n'] + rest) == seq![line]
            + lines_of(rest),
        line.len() > 0 ==> lines_of(line) == seq![line],
        lines_of(Seq::empty()).len() == 0,
{
    let whole = line + seq!['\n'] + rest;
    let n = line.len() as int;
    assert forall|k: int| 0 <= k < n implies line[k] != '\n' by {
        assert(line.contains(line[k]));
    }
    assert(whole[n] == '\n');
    lemma_first_index(whole, '\n', n);
    lemma_first_index(line, '\n', n);
    assert(whole.take(n) =~= line);
    assert(whole.skip(n + 1) =~= rest);
}

/// Space is what separates words: blanks, tabs and the ends of lines are space, and letters,
/// digits and signs are not; a control character is none that shows.
pub proof fn law_space(c: char)
    ensures
        is_white(' '),
        is_white('\t'),
        is_white('\n'),
        is_white('\r'),
        0x21 <= c as u32 <= 0x7e ==> !is_white(c),
        is_control_spec('\n'),
        is_control_spec('\u{1b}'),
        0x20 <= c as u32 <= 0x7e ==> !is_control_spec(c),
        'a' <= c <= 'z' ==> lower_spec(c) == c,
        lower_spec('A') == 'a',
        lower_spec('Z') == 'z',
        0x41 <= c as u32 <= 0x5a ==> lower_spec(c) as u32 == c as u32 + 0x20,
        (c as u32) < 0x41 || c as u32 > 0x5a ==> lower_spec(c) == c,
{
}

/// A number is read of its digits, with or without a plus before them; anything else in it, or no
/// digit at all, makes it none.
pub proof fn law_numbers(n: nat, text: Seq<char>, i: int)
    ensures
        number_value(decimal(n)) == Some(n),
        number_value(seq!['+'] + decimal(n)) == Some(n),
        text.len() == 0 ==> number_value(text) is None,
        text == seq!['+'] ==> number_value(text) is None,
        0 <= i < text.len() && !('0' <= text[i] <= '9') && !(i == 0 && text[0] == '+')
            ==> number_value(text) is None,
{
    lemma_decimal_value(n);
    assert(is_digit(decimal(n)[0]));
    assert(decimal(n)[0] != '+');
    let plus = seq!['+'] + decimal(n);
    assert(plus.skip(1) =~= decimal(n));
    if text == seq!['+'] {
        assert(text.skip(1).len() == 0);
    }
    if 0 <= i < text.len() && !('0' <= text[i] <= '9') && !(i == 0 && text[0] == '+') {
        lemma_not_a_digit(text[i]);
        let d = number_digits(text);
        if text[0] == '+' {
            assert(d[i - 1] == text[i]);
        } else {
            assert(d[i] == text[i]);
        }
    }
}

proof fn lemma_not_a_digit(c: char)
    requires
        !('0' <= c <= '9'),
    ensures
        !is_digit(c),
{
}

} // verus!
