//! Bytes for the host terminal: graphics commands, frames and the clipboard.

use base64::Engine;

use vstd::prelude::*;
use vstd::slice::slice_subrange;
use vstd::utf8::{decode_utf8, encode_utf8, valid_utf8};

use crate::input::{no_modifiers, KeyCode, KeyEventKind, KeyModifiers, RawInputEvent};
use crate::text;
use crate::text::{decimal, number_value};

verus! {

/// Whether `part` stands in `bytes` from position `i` on.
pub open spec fn stands_at(part: Seq<u8>, bytes: Seq<u8>, i: int) -> bool {
    0 <= i && i + part.len() <= bytes.len() && bytes.subrange(i, i + part.len()) == part
}

/// Where `part`, which is not empty, first stands in `bytes`.
pub open spec fn found_at(bytes: Seq<u8>, part: Seq<u8>) -> Option<int>
    decreases bytes.len(),
{
    if part.len() == 0 || part.len() > bytes.len() {
        None
    } else if bytes.subrange(0, part.len() as int) == part {
        Some(0)
    } else {
        match found_at(bytes.skip(1), part) {
            Some(i) => Some(i + 1),
            None => None,
        }
    }
}

/// Where `part` first stands.
pub proof fn lemma_found_at(bytes: Seq<u8>, part: Seq<u8>)
    ensures
        match found_at(bytes, part) {
            Some(i) => stands_at(part, bytes, i) && forall|j: int|
                0 <= j < i ==> !#[trigger] stands_at(part, bytes, j),
            None => part.len() > 0 ==> forall|j: int| !#[trigger] stands_at(part, bytes, j),
        },
    decreases bytes.len(),
{
    if part.len() > 0 && part.len() <= bytes.len() {
        if bytes.subrange(0, part.len() as int) != part {
            let rest = bytes.skip(1);
            lemma_found_at(rest, part);
            assert forall|j: int| #[trigger] stands_at(part, bytes, j) implies j >= 1 && stands_at(
                part,
                rest,
                j - 1,
            ) by {
                assert(rest.subrange(j - 1, j - 1 + part.len()) =~= bytes.subrange(
                    j,
                    j + part.len(),
                ));
            }
            match found_at(rest, part) {
                Some(i) => {
                    assert(bytes.subrange(i + 1, i + 1 + part.len()) =~= rest.subrange(
                        i,
                        i + part.len(),
                    ));
                },
                None => {},
            }
        }
    }
}

/// Whether two byte strings are the same.
fn same_bytes(a: &[u8], b: &[u8]) -> (r: bool)
    ensures
        r == (a@ == b@),
{
    if a.len() != b.len() {
        return false;
    }
    let mut i: usize = 0;
    while i < a.len()
        invariant
            a@.len() == b@.len(),
            i <= a@.len(),
            forall|k: int| 0 <= k < i ==> a@[k] == b@[k],
        decreases a@.len() - i,
    {
        if a[i] != b[i] {
            return false;
        }
        i = i + 1;
    }
    assert(a@ =~= b@);
    true
}

/// Where `needle` first stands in `haystack`, from a position on.
fn find_from(haystack: &[u8], from: usize, needle: &[u8]) -> (r: Option<usize>)
    requires
        from <= haystack@.len(),
        needle@.len() > 0,
    ensures
        match r {
            Some(i) => found_at(haystack@.skip(from as int), needle@) == Some(i as int) && from + i
                + needle@.len() <= haystack@.len(),
            None => found_at(haystack@.skip(from as int), needle@) is None,
        },
{
    let n: usize = needle.len();
    let ghost rest = haystack@.skip(from as int);
    let mut at: usize = from;
    assert(rest.skip(0) =~= rest);
    while haystack.len() - at >= n
        invariant
            from <= at <= haystack@.len(),
            n == needle@.len(),
            n > 0,
            rest == haystack@.skip(from as int),
            found_at(rest, needle@) == (match found_at(haystack@.skip(at as int), needle@) {
                Some(i) => Some(i + (at - from)),
                None => None,
            }),
        decreases haystack@.len() - at,
    {
        let ghost tail = haystack@.skip(at as int);
        let part: &[u8] = slice_subrange(haystack, at, at + n);
        assert(part@ =~= tail.subrange(0, n as int));
        if same_bytes(part, needle) {
            return Some(at - from);
        }
        assert(tail.skip(1) =~= haystack@.skip(at + 1));
        at = at + 1;
    }
    None
}

/// Where `needle` first stands in `haystack`; an empty one stands nowhere.
pub fn find_subslice(haystack: &[u8], needle: &[u8]) -> (r: Option<usize>)
    ensures
        match r {
            Some(i) => found_at(haystack@, needle@) == Some(i as int),
            None => found_at(haystack@, needle@) is None,
        },
{
    if needle.len() == 0 {
        return None;
    }
    assert(haystack@.skip(0) =~= haystack@);
    find_from(haystack, 0, needle)
}

/// The beginning of a graphics command.
pub open spec fn command_start() -> Seq<u8> {
    seq![0x1bu8, 0x5f, 0x47]
}

/// The end of a graphics command.
pub open spec fn command_end() -> Seq<u8> {
    seq![0x1bu8, 0x5c]
}

/// Whether graphics commands stand among the bytes.
pub fn contains_kitty_graphics_bytes(bytes: &[u8]) -> (r: bool)
    ensures
        r == exists|i: int| #[trigger] stands_at(command_start(), bytes@, i),
{
    let start: Vec<u8> = vec![0x1b, 0x5f, 0x47];
    assert(start@ =~= command_start());
    proof {
        lemma_found_at(bytes@, command_start());
    }
    find_subslice(bytes, start.as_slice()).is_some()
}

/// The position of the first `b`, the length where there is none.
pub open spec fn byte_index(s: Seq<u8>, b: u8) -> int
    decreases s.len(),
{
    if s.len() == 0 || s[0] == b {
        0
    } else {
        1 + byte_index(s.skip(1), b)
    }
}

/// The number that a part of a command header gives as the image's: `None` where the part is
/// another one, `Some(None)` where it is no text, `Some(Some(n))` for a number, and also `None`
/// where the text is no number.
pub open spec fn part_id(part: Seq<u8>) -> Option<Option<u32>> {
    if part.len() >= 2 && part[0] == 0x69 && part[1] == 0x3d {
        let value = part.skip(2);
        if !valid_utf8(value) {
            Some(None)
        } else {
            match number_value(decode_utf8(value)) {
                Some(n) => if n <= u32::MAX {
                    Some(Some(n as u32))
                } else {
                    None
                },
                None => None,
            }
        }
    } else {
        None
    }
}

/// The image of a command header: the first number under `i=` among its parts, which commas
/// separate.
pub open spec fn header_id(header: Seq<u8>) -> Option<u32>
    decreases header.len(),
{
    let i = byte_index(header, 0x2c);
    match part_id(header.take(i)) {
        Some(id) => id,
        None => if 0 <= i < header.len() {
            header_id(header.skip(i + 1))
        } else {
            None
        },
    }
}

/// The image that a graphics command is about.
pub open spec fn command_id(command: Seq<u8>) -> Option<u32> {
    header_id(command.take(byte_index(command, 0x3b)))
}

/// `std::str::from_utf8`: the text that the bytes encode, where they are UTF-8.
#[verifier::external_body]
fn utf8_text(bytes: &[u8]) -> (r: Option<String>)
    ensures
        r is Some <==> valid_utf8(bytes@),
        r is Some ==> encode_utf8(r->0@) == bytes@,
{
    std::str::from_utf8(bytes).ok().map(str::to_string)
}

/// The position of the first `b`, the length where there is none.
fn index_of_byte(bytes: &[u8], b: u8) -> (r: usize)
    ensures
        r == byte_index(bytes@, b),
        r <= bytes@.len(),
{
    let mut i: usize = 0;
    assert(bytes@.skip(0) =~= bytes@);
    while i < bytes.len() && bytes[i] != b
        invariant
            i <= bytes@.len(),
            byte_index(bytes@, b) == i + byte_index(bytes@.skip(i as int), b),
        decreases bytes@.len() - i,
    {
        assert(bytes@.skip(i as int).skip(1) =~= bytes@.skip(i + 1));
        assert(bytes@.skip(i as int)[0] == bytes@[i as int]);
        i = i + 1;
    }
    i
}

/// The image that a part of a command header names.
fn header_part_id(part: &[u8]) -> (r: Option<Option<u32>>)
    ensures
        r == part_id(part@),
{
    if part.len() < 2 || part[0] != 0x69 || part[1] != 0x3d {
        return None;
    }
    let value: &[u8] = slice_subrange(part, 2, part.len());
    assert(value@ =~= part@.skip(2));
    match utf8_text(value) {
        None => Some(None),
        Some(digits) => {
            proof {
                vstd::utf8::encode_utf8_decode_utf8(digits@);
            }
            match text::parse_u32(digits.as_str()) {
                Some(n) => Some(Some(n)),
                None => None,
            }
        },
    }
}

/// The image that a graphics command is about.
pub fn kitty_graphics_command_image_id(command: &[u8]) -> (r: Option<u32>)
    ensures
        r == command_id(command@),
{
    let end: usize = index_of_byte(command, 0x3b);
    let header: &[u8] = slice_subrange(command, 0, end);
    assert(header@ =~= command@.take(end as int));
    let mut from: usize = 0;
    assert(header@.skip(0) =~= header@);
    loop
        invariant
            from <= header@.len(),
            header@ == command@.take(byte_index(command@, 0x3b)),
            command_id(command@) == header_id(header@.skip(from as int)),
        decreases header@.len() - from,
    {
        let rest: &[u8] = slice_subrange(header, from, header.len());
        assert(rest@ =~= header@.skip(from as int));
        let i: usize = index_of_byte(rest, 0x2c);
        let part: &[u8] = slice_subrange(rest, 0, i);
        assert(part@ =~= rest@.take(i as int));
        match header_part_id(part) {
            Some(id) => {
                return id;
            },
            None => {},
        }
        if i == rest.len() {
            return None;
        }
        assert(rest@.skip(i + 1) =~= header@.skip(from + i + 1));
        from = from + i + 1;
    }
}

/// The images that the graphics commands among the bytes are about, in order. A command that does
/// not end among them does not count, nor does what follows it.
pub open spec fn image_ids(bytes: Seq<u8>) -> Seq<u32>
    decreases bytes.len(),
{
    match found_at(bytes, command_start()) {
        None => Seq::empty(),
        Some(start) => if 0 <= start && start + 3 <= bytes.len() {
            let rest = bytes.skip(start + 3);
            match found_at(rest, command_end()) {
                None => Seq::empty(),
                Some(end) => if 0 <= end && end + 2 <= rest.len() {
                    (match command_id(rest.take(end)) {
                        Some(id) => seq![id],
                        None => Seq::empty(),
                    }) + image_ids(rest.skip(end + 2))
                } else {
                    Seq::empty()
                },
            }
        } else {
            Seq::empty()
        },
    }
}

/// The images that the graphics commands among the bytes are about.
pub fn kitty_graphics_image_ids(bytes: &[u8]) -> (r: Vec<u32>)
    ensures
        r@ == image_ids(bytes@),
{
    let start: Vec<u8> = vec![0x1b, 0x5f, 0x47];
    let end: Vec<u8> = vec![0x1b, 0x5c];
    assert(start@ =~= command_start());
    assert(end@ =~= command_end());
    let total: usize = bytes.len();
    let mut ids: Vec<u32> = Vec::new();
    let mut index: usize = 0;
    assert(bytes@.skip(0) =~= bytes@);
    assert(ids@ + image_ids(bytes@) =~= image_ids(bytes@));
    loop
        invariant
            index <= total == bytes@.len(),
            start@ == command_start(),
            end@ == command_end(),
            image_ids(bytes@) =~= ids@ + image_ids(bytes@.skip(index as int)),
        decreases bytes@.len() - index,
    {
        let ghost rest = bytes@.skip(index as int);
        match find_from(bytes, index, start.as_slice()) {
            None => {
                return ids;
            },
            Some(at) => {
                let from: usize = index + at + 3;
                assert(bytes@.skip(from as int) =~= rest.skip(at + 3));
                match find_from(bytes, from, end.as_slice()) {
                    None => {
                        return ids;
                    },
                    Some(len) => {
                        let command: &[u8] = slice_subrange(bytes, from, from + len);
                        let ghost before = ids@;
                        assert(command@ =~= bytes@.skip(from as int).take(len as int));
                        match kitty_graphics_command_image_id(command) {
                            Some(id) => {
                                ids.push(id);
                                assert(ids@ =~= before + seq![id]);
                            },
                            None => {
                                assert(before + Seq::<u32>::empty() =~= before);
                            },
                        }
                        assert(bytes@.skip(from as int).skip(len + 2) =~= bytes@.skip(
                            from + len + 2,
                        ));
                        index = from + len + 2;
                    },
                }
            },
        }
    }
}

/// The images that the host terminal was sent and still holds.
#[derive(Debug)]
pub struct ReceivedGraphics {
    pub ids: Vec<u32>,
}

impl ReceivedGraphics {
    /// Whether each image is listed once.
    pub open spec fn well_formed(&self) -> bool {
        self.ids@.no_duplicates()
    }

    /// No image.
    pub fn new() -> (r: Self)
        ensures
            r.well_formed(),
            r.ids@.len() == 0,
    {
        ReceivedGraphics { ids: Vec::new() }
    }

    fn holds(&self, id: u32) -> (r: bool)
        ensures
            r == self.ids@.contains(id),
    {
        let mut i: usize = 0;
        while i < self.ids.len()
            invariant
                i <= self.ids@.len(),
                forall|k: int| 0 <= k < i ==> self.ids@[k] != id,
            decreases self.ids@.len() - i,
        {
            if self.ids[i] == id {
                return true;
            }
            i = i + 1;
        }
        false
    }

    /// Notes the images of the graphics commands among the bytes.
    pub fn record(&mut self, bytes: &[u8])
        requires
            old(self).well_formed(),
        ensures
            final(self).well_formed(),
            final(self).ids@ == ids_noted(old(self).ids@, image_ids(bytes@)),
            forall|id: u32| #[trigger]
                final(self).ids@.contains(id) <==> old(self).ids@.contains(id) || image_ids(
                    bytes@,
                ).contains(id),
    {
        let found: Vec<u32> = kitty_graphics_image_ids(bytes);
        let ghost start = self.ids@;
        let ghost all = found@;
        let mut i: usize = 0;
        assert(all.take(0) =~= Seq::<u32>::empty());
        while i < found.len()
            invariant
                i <= found@.len(),
                all == found@,
                self.well_formed(),
                self.ids@ == ids_noted(start, all.take(i as int)),
                forall|id: u32| #[trigger]
                    self.ids@.contains(id) <==> start.contains(id) || all.take(
                        i as int,
                    ).contains(id),
            decreases found@.len() - i,
        {
            let id: u32 = found[i];
            let ghost before = self.ids@;
            let ghost part = all.take(i as int);
            let ghost more = all.take(i + 1);
            assert(more =~= part.push(id));
            assert(more.drop_last() =~= part);
            if !self.holds(id) {
                self.ids.push(id);
            }
            proof {
                let now = self.ids@;
                assert forall|x: u32| #[trigger] now.contains(x) <==> start.contains(x)
                    || more.contains(x) by {
                    assert(before.contains(x) <==> start.contains(x) || part.contains(x));
                    lemma_push_contains(part, id, x);
                    lemma_push_contains(before, id, x);
                }
            }
            i = i + 1;
        }
        assert(all.take(i as int) =~= all);
    }

    /// The bytes by which a frame is drawn together with its graphics, whose images are noted.
    /// `enabled` says whether the host terminal shows graphics; without it a frame has none.
    pub fn write_encoded_frame_with_graphics(
        &mut self,
        encoded: Vec<u8>,
        graphics: &[u8],
        enabled: bool,
    ) -> (r: Vec<u8>)
        requires
            old(self).well_formed(),
        ensures
            final(self).well_formed(),
            r@ == frame_bytes(encoded@, shown_graphics(graphics@, enabled)),
            final(self).ids@ == ids_noted(
                old(self).ids@,
                image_ids(shown_graphics(graphics@, enabled)),
            ),
            forall|id: u32| #[trigger]
                final(self).ids@.contains(id) <==> old(self).ids@.contains(id) || (enabled
                    && image_ids(graphics@).contains(id)),
    {
        let ghost start = self.ids@;
        proof {
            let none = Seq::<u8>::empty();
            lemma_no_image(none);
            assert(ids_noted(start, Seq::<u32>::empty()) == start);
            assert(graphics@.len() == 0 ==> graphics@ =~= none);
            assert(forall|id: u32| !Seq::<u32>::empty().contains(id));
        }
        let mut output: Vec<u8> = encoded;
        if !enabled || graphics.len() == 0 {
            return output;
        }
        self.record(graphics);
        output.push(0x1b);
        output.push(0x37);
        output.extend_from_slice(graphics);
        output.push(0x1b);
        output.push(0x38);
        assert(output@ =~= frame_bytes(encoded@, graphics@));
        output
    }

    /// The commands by which the host terminal gives up the images, which are then forgotten.
    pub fn clear(&mut self) -> (r: String)
        ensures
            r@ == delete_commands(old(self).ids@),
            final(self).ids@.len() == 0,
    {
        let mut commands: String = String::new();
        let ghost all = self.ids@;
        let mut i: usize = 0;
        assert(all.take(0) =~= Seq::<u32>::empty());
        while i < self.ids.len()
            invariant
                i <= self.ids@.len(),
                all == self.ids@,
                commands@ == delete_commands(all.take(i as int)),
            decreases self.ids@.len() - i,
        {
            assert(all.take(i + 1).drop_last() =~= all.take(i as int));
            let ghost before = commands@;
            commands.append("\u{1b}_Ga=d,d=I,i=");
            commands.append(text::decimal_of(self.ids[i] as u128).as_str());
            commands.append(",q=2;\u{1b}\\");
            assert(commands@ =~= before + delete_command(all[i as int]));
            i = i + 1;
        }
        assert(all.take(i as int) =~= all);
        self.ids = Vec::new();
        commands
    }
}

proof fn lemma_push_contains(s: Seq<u32>, id: u32, x: u32)
    ensures
        s.push(id).contains(x) <==> s.contains(x) || x == id,
{
    let t = s.push(id);
    if s.contains(x) {
        let k = choose|k: int| 0 <= k < s.len() && s[k] == x;
        assert(t[k] == x);
    }
    if x == id {
        assert(t[s.len() as int] == x);
    }
    if t.contains(x) {
        let k = choose|k: int| 0 <= k < t.len() && t[k] == x;
        if k < s.len() {
            assert(s[k] == x);
        }
    }
}

/// The command by which the host terminal gives up an image.
pub open spec fn delete_command(id: u32) -> Seq<char> {
    "\u{1b}_Ga=d,d=I,i="@ + decimal(id as nat) + ",q=2;\u{1b}\\"@
}

/// The commands by which the host terminal gives up images.
pub open spec fn delete_commands(ids: Seq<u32>) -> Seq<char>
    decreases ids.len(),
{
    if ids.len() == 0 {
        Seq::empty()
    } else {
        delete_commands(ids.drop_last()) + delete_command(ids.last())
    }
}

/// The bytes of a frame and its graphics: the graphics come last, with the cursor saved before
/// them and restored behind them.
pub open spec fn frame_bytes(encoded: Seq<u8>, graphics: Seq<u8>) -> Seq<u8> {
    if graphics.len() == 0 {
        encoded
    } else {
        encoded + seq![0x1bu8, 0x37] + graphics + seq![0x1bu8, 0x38]
    }
}

/// The graphics of a frame that are shown: none where the host terminal shows none.
pub open spec fn shown_graphics(graphics: Seq<u8>, enabled: bool) -> Seq<u8> {
    if enabled {
        graphics
    } else {
        Seq::empty()
    }
}

/// The images with those that were found, each once.
pub open spec fn ids_noted(ids: Seq<u32>, found: Seq<u32>) -> Seq<u32>
    decreases found.len(),
{
    if found.len() == 0 {
        ids
    } else {
        let before = ids_noted(ids, found.drop_last());
        if before.contains(found.last()) {
            before
        } else {
            before.push(found.last())
        }
    }
}

proof fn lemma_no_image(bytes: Seq<u8>)
    requires
        bytes.len() == 0,
    ensures
        image_ids(bytes) == Seq::<u32>::empty(),
{
}

/// The bytes that a base64 text stands for, in the standard alphabet with padding.
pub uninterp spec fn base64_decoded(text: Seq<char>) -> Option<Seq<u8>>;

/// `base64::engine::general_purpose::STANDARD.decode`. Its result is named `base64_decoded`, with
/// `None` for every error.
#[verifier::external_body]
fn decode_base64(text: &str) -> (r: Option<Vec<u8>>)
    ensures
        match r {
            Some(bytes) => base64_decoded(text@) == Some(bytes@),
            None => base64_decoded(text@) is None,
        },
{
    base64::engine::general_purpose::STANDARD.decode(text).ok()
}

/// The bytes of a clipboard payload that a server sent, `None` where it is not base64.
pub fn decode_clipboard_payload(data: &str) -> (r: Option<Vec<u8>>)
    ensures
        match r {
            Some(bytes) => base64_decoded(data@) == Some(bytes@),
            None => base64_decoded(data@) is None,
        },
{
    decode_base64(data)
}

/// The bytes of an empty bracketed paste.
pub open spec fn empty_paste() -> Seq<u8> {
    seq![0x1bu8, 0x5b, 0x32, 0x30, 0x30, 0x7e, 0x1b, 0x5b, 0x32, 0x30, 0x31, 0x7e]
}

/// Whether an event is a press of control-V.
pub open spec fn is_paste_key(event: RawInputEvent) -> bool {
    match event {
        RawInputEvent::Key(key) => key.kind == KeyEventKind::Press && key.modifiers == (
        KeyModifiers { control: true, ..no_modifiers() }) && (key.code == KeyCode::Char('v')
            || key.code == KeyCode::Char('V')),
        _ => false,
    }
}

/// Whether typed bytes ask for the local clipboard's image: an empty paste, or control-V alone.
pub fn should_bridge_clipboard_image_paste(data: &[u8], events: &Vec<RawInputEvent>) -> (r: bool)
    ensures
        r == (data@ == empty_paste() || (events@.len() == 1 && is_paste_key(events@[0]))),
{
    let paste: Vec<u8> = vec![
        0x1b, 0x5b, 0x32, 0x30, 0x30, 0x7e, 0x1b, 0x5b, 0x32, 0x30, 0x31, 0x7e,
    ];
    assert(paste@ =~= empty_paste());
    if same_bytes(data, paste.as_slice()) {
        return true;
    }
    if events.len() != 1 {
        return false;
    }
    match &events[0] {
        RawInputEvent::Key(key) => {
            let letter: bool = match key.code {
                KeyCode::Char(c) => c == 'v' || c == 'V',
                _ => false,
            };
            key.kind == KeyEventKind::Press && key.modifiers.is_control() && letter
        },
        _ => false,
    }
}

/// The size of the host window, in cells and in pixels.
#[derive(Debug, Clone, Copy)]
pub struct WindowSize {
    pub columns: u16,
    pub rows: u16,
    pub width: u16,
    pub height: u16,
}

/// The size of a cell in pixels along one axis, at least one.
pub open spec fn cell_pixels(total: u16, cells: u16) -> int
    recommends
        cells > 0,
{
    let n = total as int / cells as int;
    if n < 1 {
        1
    } else {
        n
    }
}

/// The size of the host terminal in cells, and the size of a cell in pixels: 80 by 24 where the
/// terminal does not tell; no cell size without graphics, and 8 by 16 where the window does not
/// tell.
pub fn terminal_geometry(
    size: Option<(u16, u16)>,
    kitty_graphics_enabled: bool,
    window: Option<WindowSize>,
) -> (r: (u16, u16, u32, u32))
    ensures
        r.0 == (if size is Some {
            (size->0).0
        } else {
            80
        }),
        r.1 == (if size is Some {
            (size->0).1
        } else {
            24
        }),
        ({
            let known = window is Some && (window->0).columns != 0 && (window->0).rows != 0 && (
            window->0).width != 0 && (window->0).height != 0;
            if !kitty_graphics_enabled {
                r.2 == 0 && r.3 == 0
            } else if known {
                r.2 == cell_pixels((window->0).width, (window->0).columns) && r.3 == cell_pixels(
                    (window->0).height,
                    (window->0).rows,
                )
            } else {
                r.2 == 8 && r.3 == 16
            }
        }),
{
    let (cols, rows) = match size {
        Some((cols, rows)) => (cols, rows),
        None => (80, 24),
    };
    if !kitty_graphics_enabled {
        return (cols, rows, 0, 0);
    }
    match window {
        Some(w) => {
            if w.columns == 0 || w.rows == 0 || w.width == 0 || w.height == 0 {
                return (cols, rows, 8, 16);
            }
            let x: u32 = w.width as u32 / w.columns as u32;
            let y: u32 = w.height as u32 / w.rows as u32;
            let cell_width: u32 = if x < 1 {
                1
            } else {
                x
            };
            let cell_height: u32 = if y < 1 {
                1
            } else {
                y
            };
            (cols, rows, cell_width, cell_height)
        },
        None => (cols, rows, 8, 16),
    }
}

} // verus!
