//! The layout manifest: one record per block, its JSON text, and the order in
//! which a decoder visits the blocks.
use vstd::prelude::*;
use crate::text::{decimal, push_char, push_decimal, push_text};

verus! {

/// File name of the manifest inside a symbols directory.
pub const LAYOUT_FILENAME: &'static str = "_raptorq_layout.json";

/// Prefix of the per-block symbol directories (`block_<id>`).
pub const BLOCK_DIR_PREFIX: &'static str = "block_";

/// Where one block of the input sits and how to rebuild it.
#[derive(Debug, Clone)]
pub struct BlockLayout {
    /// Block number, in partition order from 0.
    pub block_id: usize,
    /// The 12 serialized encoder parameters of this block.
    pub encoder_parameters: Vec<u8>,
    /// Offset of the block's first byte in the original file.
    pub original_offset: u64,
    /// Exact size of the block in bytes.
    pub size: u64,
    /// Identifiers of the symbols emitted for this block.
    pub symbols: Vec<String>,
    /// Identifier of the block's plaintext; empty to skip verification.
    pub hash: String,
}

/// The manifest of an encoded file.
#[derive(Debug, Clone)]
pub struct RaptorQLayout {
    /// One record per block; never empty for a manifest written by an encode.
    pub blocks: Vec<BlockLayout>,
}

/// Summary of one encoded block.
#[derive(Debug, Clone)]
pub struct BlockInfo {
    pub block_id: usize,
    pub encoder_parameters: Vec<u8>,
    pub original_offset: u64,
    pub size: u64,
    pub symbols_count: u64,
    pub source_symbols_count: u64,
    pub hash: String,
}

/// What an encode or metadata run reports.
#[derive(Debug, Clone)]
pub struct ProcessResult {
    pub total_symbols_count: u64,
    pub total_repair_symbols: u64,
    pub symbols_directory: String,
    pub blocks: Option<Vec<BlockInfo>>,
    pub layout_file_path: String,
    /// The manifest text, when it was returned instead of written.
    pub layout_content: Option<String>,
}

/// JSON escape of one character.
pub open spec fn escape_char(c: char) -> Seq<char> {
    if c == '"' {
        seq!['\\', '"']
    } else if c == '\\' {
        seq!['\\', '\\']
    } else if (c as u32) < 0x20 {
        seq!['\\', 'u', '0', '0', hex_char((c as u32 / 16) as nat), hex_char((c as u32 % 16) as nat)]
    } else {
        seq![c]
    }
}

/// Lower-case hexadecimal digit for `d < 16`.
pub open spec fn hex_char(d: nat) -> char {
    if d < 10 { crate::text::digit_char(d) } else if d == 10 { 'a' } else if d == 11 { 'b' }
    else if d == 12 { 'c' } else if d == 13 { 'd' } else if d == 14 { 'e' } else { 'f' }
}

/// JSON string literal of `s`.
pub open spec fn json_string(s: Seq<char>) -> Seq<char>
    decreases s.len(),
{
    if s.len() == 0 {
        seq!['"', '"']
    } else {
        json_string(s.drop_last()).drop_last() + escape_char(s.last()) + seq!['"']
    }
}

/// `items` separated by `", "`.
pub open spec fn joined(items: Seq<Seq<char>>) -> Seq<char>
    decreases items.len(),
{
    if items.len() == 0 {
        Seq::empty()
    } else if items.len() == 1 {
        items[0]
    } else {
        joined(items.drop_last()) + seq![',', ' '] + items.last()
    }
}

/// JSON array of decimal numbers.
pub open spec fn number_array(bytes: Seq<u8>) -> Seq<char> {
    seq!['['] + joined(bytes.map_values(|b: u8| decimal(b as nat))) + seq![']']
}

/// JSON array of strings.
pub open spec fn string_array(strings: Seq<Seq<char>>) -> Seq<char> {
    seq!['['] + joined(strings.map_values(|s: Seq<char>| json_string(s))) + seq![']']
}

/// The JSON object of one block record, indented for the manifest.
pub open spec fn block_json(b: BlockLayout) -> Seq<char> {
    "    {\n      \"block_id\": "@ + decimal(b.block_id as nat)
        + ",\n      \"encoder_parameters\": "@ + number_array(b.encoder_parameters@)
        + ",\n      \"original_offset\": "@ + decimal(b.original_offset as nat)
        + ",\n      \"size\": "@ + decimal(b.size as nat)
        + ",\n      \"symbols\": "@ + string_array(b.symbols.deep_view())
        + ",\n      \"hash\": "@ + json_string(b.hash@)
        + "\n    }"@
}

/// Block objects separated by `",\n"`.
pub open spec fn blocks_json(blocks: Seq<BlockLayout>) -> Seq<char>
    decreases blocks.len(),
{
    if blocks.len() == 0 {
        Seq::empty()
    } else if blocks.len() == 1 {
        block_json(blocks[0])
    } else {
        blocks_json(blocks.drop_last()) + ",\n"@ + block_json(blocks.last())
    }
}

/// The manifest text of `layout`.
pub open spec fn layout_json(layout: RaptorQLayout) -> Seq<char> {
    "{\n  \"blocks\": [\n"@ + blocks_json(layout.blocks@) + "\n  ]\n}\n"@
}

fn push_escaped(s: &mut String, c: char)
    ensures
        final(s)@ == old(s)@ + escape_char(c),
{
    if c == '"' {
        push_char(s, '\\');
        push_char(s, '"');
    } else if c == '\\' {
        push_char(s, '\\');
        push_char(s, '\\');
    } else if (c as u32) < 0x20 {
        push_text(s, "\\u00");
        push_char(s, hex_digit(c as u32 / 16));
        push_char(s, hex_digit(c as u32 % 16));
        proof { reveal_strlit("\\u00"); }
    } else {
        push_char(s, c);
    }
    assert(final(s)@ =~= old(s)@ + escape_char(c));
}

fn hex_digit(d: u32) -> (c: char)
    requires
        d < 16,
    ensures
        c == hex_char(d as nat),
{
    if d < 10 {
        if d == 0 { '0' } else if d == 1 { '1' } else if d == 2 { '2' } else if d == 3 { '3' }
        else if d == 4 { '4' } else if d == 5 { '5' } else if d == 6 { '6' } else if d == 7 { '7' }
        else if d == 8 { '8' } else { '9' }
    } else if d == 10 { 'a' } else if d == 11 { 'b' } else if d == 12 { 'c' }
    else if d == 13 { 'd' } else if d == 14 { 'e' } else { 'f' }
}

/// Appends the JSON string literal of `text`.
fn push_json_string(s: &mut String, text: &str)
    ensures
        final(s)@ == old(s)@ + json_string(text@),
{
    let ghost start = s@;
    push_char(s, '"');
    let n = text.unicode_len();
    let mut i: usize = 0;
    assert(json_string(text@.take(0)) =~= seq!['"', '"']) by {
        assert(text@.take(0).len() == 0);
    }
    while i < n
        invariant
            n == text@.len(),
            0 <= i <= n,
            s@ == start + json_string(text@.take(i as int)).drop_last(),
        decreases n - i,
    {
        let c = text.get_char(i);
        push_escaped(s, c);
        proof {
            let t = text@.take(i + 1);
            assert(t.drop_last() =~= text@.take(i as int));
            assert(t.last() == c);
            assert(json_string(t) == json_string(t.drop_last()).drop_last() + escape_char(c) + seq!['"']);
            assert(json_string(t).drop_last() =~= json_string(t.drop_last()).drop_last() + escape_char(c));
        }
        i = i + 1;
    }
    assert(text@.take(i as int) =~= text@);
    push_char(s, '"');
    proof {
        if text@.len() == 0 {
            assert(json_string(text@) =~= seq!['"', '"']);
        }
        assert(json_string(text@).last() == '"');
        assert(json_string(text@) =~= json_string(text@).drop_last().push('"'));
    }
}

/// Appends `bytes` as a JSON array of numbers.
fn push_number_array(s: &mut String, bytes: &Vec<u8>)
    ensures
        final(s)@ == old(s)@ + number_array(bytes@),
{
    let ghost start = s@;
    let ghost items = bytes@.map_values(|b: u8| decimal(b as nat));
    push_char(s, '[');
    let mut i: usize = 0;
    while i < bytes.len()
        invariant
            0 <= i <= bytes@.len(),
            items == bytes@.map_values(|b: u8| decimal(b as nat)),
            s@ == start + seq!['['] + joined(items.take(i as int)),
        decreases bytes@.len() - i,
    {
        if i > 0 {
            push_text(s, ", ");
            proof { reveal_strlit(", "); }
        }
        push_decimal(s, bytes[i] as u64);
        proof {
            let t = items.take(i + 1);
            assert(t.drop_last() =~= items.take(i as int));
            if i == 0 {
                assert(joined(items.take(0)) =~= Seq::<char>::empty());
            }
        }
        i = i + 1;
        assert(s@ =~= start + seq!['['] + joined(items.take(i as int)));
    }
    assert(items.take(i as int) =~= items);
    push_char(s, ']');
    assert(s@ =~= start + number_array(bytes@));
}

/// Appends `strings` as a JSON array of strings.
fn push_string_array(s: &mut String, strings: &Vec<String>)
    ensures
        final(s)@ == old(s)@ + string_array(strings.deep_view()),
{
    let ghost start = s@;
    let ghost items = strings.deep_view().map_values(|t: Seq<char>| json_string(t));
    push_char(s, '[');
    let mut i: usize = 0;
    while i < strings.len()
        invariant
            0 <= i <= strings@.len(),
            items == strings.deep_view().map_values(|t: Seq<char>| json_string(t)),
            s@ == start + seq!['['] + joined(items.take(i as int)),
        decreases strings@.len() - i,
    {
        if i > 0 {
            push_text(s, ", ");
            proof { reveal_strlit(", "); }
        }
        push_json_string(s, strings[i].as_str());
        proof {
            let t = items.take(i + 1);
            assert(t.drop_last() =~= items.take(i as int));
            assert(strings.deep_view()[i as int] == strings@[i as int]@);
            if i == 0 {
                assert(joined(items.take(0)) =~= Seq::<char>::empty());
            }
        }
        i = i + 1;
        assert(s@ =~= start + seq!['['] + joined(items.take(i as int)));
    }
    assert(items.take(i as int) =~= items);
    push_char(s, ']');
    assert(s@ =~= start + string_array(strings.deep_view()));
}

/// Appends the JSON object of one block record.
fn push_block_json(s: &mut String, b: &BlockLayout)
    ensures
        final(s)@ == old(s)@ + block_json(*b),
{
    let ghost start = s@;
    push_text(s, "    {\n      \"block_id\": ");
    push_decimal(s, b.block_id as u64);
    push_text(s, ",\n      \"encoder_parameters\": ");
    push_number_array(s, &b.encoder_parameters);
    push_text(s, ",\n      \"original_offset\": ");
    push_decimal(s, b.original_offset);
    push_text(s, ",\n      \"size\": ");
    push_decimal(s, b.size);
    push_text(s, ",\n      \"symbols\": ");
    push_string_array(s, &b.symbols);
    push_text(s, ",\n      \"hash\": ");
    push_json_string(s, b.hash.as_str());
    push_text(s, "\n    }");
    assert(s@ =~= start + block_json(*b));
}

/// The manifest text of `layout`: a pretty-printed JSON document with one
/// `blocks` array.
pub fn layout_to_json(layout: &RaptorQLayout) -> (r: String)
    ensures
        r@ == layout_json(*layout),
{
    let mut s = String::new();
    push_text(&mut s, "{\n  \"blocks\": [\n");
    let ghost start = s@;
    let mut i: usize = 0;
    while i < layout.blocks.len()
        invariant
            0 <= i <= layout.blocks@.len(),
            s@ == start + blocks_json(layout.blocks@.take(i as int)),
        decreases layout.blocks@.len() - i,
    {
        if i > 0 {
            push_text(&mut s, ",\n");
        }
        push_block_json(&mut s, &layout.blocks[i]);
        proof {
            let t = layout.blocks@.take(i + 1);
            assert(t.drop_last() =~= layout.blocks@.take(i as int));
            if i == 0 {
                assert(blocks_json(layout.blocks@.take(0)) =~= Seq::<char>::empty());
            }
        }
        i = i + 1;
        assert(s@ =~= start + blocks_json(layout.blocks@.take(i as int)));
    }
    assert(layout.blocks@.take(i as int) =~= layout.blocks@);
    push_text(&mut s, "\n  ]\n}\n");
    assert(s@ =~= layout_json(*layout));
    s
}

/// `order` lists every index of `blocks` once, by ascending `block_id`.
pub open spec fn is_block_order(blocks: Seq<BlockLayout>, order: Seq<usize>) -> bool {
    &&& order.len() == blocks.len()
    &&& order.no_duplicates()
    &&& forall|k: int| 0 <= k < order.len() ==> #[trigger] order[k] < blocks.len()
    &&& forall|k: int, l: int| 0 <= k < l < order.len()
        ==> blocks[#[trigger] order[k] as int].block_id <= blocks[#[trigger] order[l] as int].block_id
}

/// The order in which a decoder visits `blocks`: their indices by ascending
/// `block_id`, whatever order the manifest stores them in.
pub fn block_order(blocks: &Vec<BlockLayout>) -> (r: Vec<usize>)
    ensures
        is_block_order(blocks@, r@),
{
    let mut order: Vec<usize> = Vec::new();
    let mut i: usize = 0;
    while i < blocks.len()
        invariant
            0 <= i <= blocks@.len(),
            order@.len() == i,
            order@.no_duplicates(),
            forall|k: int| 0 <= k < order@.len() ==> #[trigger] order@[k] < i,
            forall|k: int, l: int| 0 <= k < l < order@.len()
                ==> blocks@[#[trigger] order@[k] as int].block_id <= blocks@[#[trigger] order@[l] as int].block_id,
        decreases blocks@.len() - i,
    {
        let id = blocks[i].block_id;
        let mut p: usize = 0;
        while p < order.len() && blocks[order[p]].block_id <= id
            invariant
                0 <= p <= order@.len(),
                order@.len() == i,
                i < blocks@.len(),
                id == blocks@[i as int].block_id,
                forall|k: int| 0 <= k < order@.len() ==> #[trigger] order@[k] < i,
                forall|k: int| 0 <= k < p ==> blocks@[#[trigger] order@[k] as int].block_id <= id,
            decreases order@.len() - p,
        {
            p = p + 1;
        }
        let ghost before = order@;
        proof {
            assert forall|k: int| p <= k < before.len() implies blocks@[#[trigger] before[k] as int].block_id > id by {
                if k > p {
                    assert(blocks@[before[p as int] as int].block_id <= blocks@[before[k] as int].block_id);
                }
            }
        }
        order.insert(p, i);
        proof {
            assert(order@ == before.insert(p as int, i));
            assert forall|k: int| 0 <= k < order@.len() implies #[trigger] order@[k] < i + 1 by {
                if k < p { assert(order@[k] == before[k]); }
                else if k > p { assert(order@[k] == before[k - 1]); }
            }
            assert forall|k: int, l: int| 0 <= k < l < order@.len() implies
                blocks@[#[trigger] order@[k] as int].block_id <= blocks@[#[trigger] order@[l] as int].block_id by {
                if l < p {
                    assert(order@[k] == before[k] && order@[l] == before[l]);
                } else if l == p {
                    assert(order@[k] == before[k]);
                } else if k < p {
                    assert(order@[k] == before[k] && order@[l] == before[l - 1]);
                } else if k == p {
                    assert(order@[l] == before[l - 1]);
                } else {
                    assert(order@[k] == before[k - 1] && order@[l] == before[l - 1]);
                }
            }
            assert forall|k: int, l: int| 0 <= k < l < order@.len() implies order@[k] != order@[l] by {
                if l < p {
                    assert(order@[k] == before[k] && order@[l] == before[l]);
                } else if l == p {
                    assert(order@[k] == before[k]);
                } else if k < p {
                    assert(order@[k] == before[k] && order@[l] == before[l - 1]);
                } else if k == p {
                    assert(order@[l] == before[l - 1]);
                } else {
                    assert(order@[k] == before[k - 1] && order@[l] == before[l - 1]);
                }
            }
        }
        i = i + 1;
    }
    order
}

/// Every block index appears in a block order.
pub proof fn lemma_order_covers(blocks: Seq<BlockLayout>, order: Seq<usize>, i: int)
    requires
        is_block_order(blocks, order),
        0 <= i < blocks.len(),
    ensures
        exists|j: int| 0 <= j < order.len() && order[j] == i,
{
    let ints = order.map_values(|x: usize| x as int);
    assert(ints.no_duplicates()) by {
        assert forall|a: int, b: int| 0 <= a < ints.len() && 0 <= b < ints.len() && a != b
            implies ints[a] != ints[b] by {
            assert(order[a] != order[b]);
        }
    }
    ints.unique_seq_to_set();
    let range = vstd::set_lib::set_int_range(0, blocks.len() as int);
    vstd::set_lib::lemma_int_range(0, blocks.len() as int);
    assert(ints.to_set().subset_of(range)) by {
        assert forall|x: int| ints.to_set().contains(x) implies range.contains(x) by {
            let j = choose|j: int| 0 <= j < ints.len() && ints[j] == x;
            assert(order[j] < blocks.len());
        }
    }
    vstd::set_lib::lemma_subset_equality(ints.to_set(), range);
    assert(range.contains(i));
    assert(ints.to_set().contains(i));
    let j = choose|j: int| 0 <= j < ints.len() && ints[j] == i;
    assert(order[j] == i);
}

} // verus!
