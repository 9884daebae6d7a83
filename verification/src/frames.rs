//! The frames of the Anthropic protocol, read: what a client finds in each of them.
use crate::delta::{
    frame, initial_frames, text_delta_tree, text_frame, text_start_data, text_start_frame,
    text_stop_data, text_stop_frame, tool_input_tree, tool_start_tree, tool_stop_tree,
};
use crate::json::{
    is_key, is_word, json_number, json_parse, json_text, members_text, notation_members, quoted,
    reads_as_written, reads_back, JsonTree, Notation,
};
use crate::mapper::ChunkView;
use crate::reply::is_read;
use crate::text::decimal;
use vstd::prelude::*;

verus! {

/// The data of the frame is read as it was written; reading it shows it.
pub open spec fn is_legible(f: ChunkView) -> bool {
    reads_as_written(f.data, json_parse(f.data))
}

// ---- Words --------------------------------------------------------------------------------

pub(crate) proof fn lemma_keys()
    ensures
        is_key("type"@),
        is_key("index"@),
        is_key("delta"@),
        is_key("text"@),
        is_key("content_block"@),
        is_key("id"@),
        is_key("name"@),
        is_key("input"@),
        is_key("partial_json"@),
        "partial_json"@ != "text"@,
        "type"@ != "text"@,
        "id"@ != "type"@,
        "name"@ != "type"@,
        "input"@ != "type"@,
        "index"@ != "type"@,
        "index"@ != "delta"@,
        "index"@ != "content_block"@,
{
    reveal_strlit("type");
    reveal_strlit("index");
    reveal_strlit("delta");
    reveal_strlit("text");
    reveal_strlit("content_block");
    reveal_strlit("id");
    reveal_strlit("name");
    reveal_strlit("input");
    reveal_strlit("partial_json");
    assert("type"@[1] != "text"@[1]);
    assert("name"@[0] != "type"@[0]);
    assert("index"@[0] != "delta"@[0]);
}

pub(crate) proof fn lemma_events()
    ensures
        "content_block_delta"@ != "content_block_start"@,
        !is_read(Some("content_block_stop"@)),
        !is_read(Some("message_start"@)),
        !is_read(Some("message_delta"@)),
        !is_read(Some("message_stop"@)),
{
    reveal_strlit("content_block_delta");
    reveal_strlit("content_block_start");
    reveal_strlit("content_block_stop");
    reveal_strlit("message_start");
    reveal_strlit("message_delta");
    reveal_strlit("message_stop");
    assert("content_block_delta"@[14] != "content_block_start"@[14]);
    assert("content_block_delta"@.len() == 19);
    assert("content_block_start"@.len() == 19);
    assert("content_block_stop"@.len() == 18);
    assert("message_start"@.len() == 13);
    assert("message_delta"@.len() == 13);
    assert("message_stop"@.len() == 12);
}

// ---- Frames that serde_json writes --------------------------------------------------------

pub(crate) proof fn lemma_read_text(index: int, text: Seq<char>)
    requires
        is_legible(text_frame(index, text)),
    ensures
        json_parse(text_frame(index, text).data) == Some(text_delta_tree(index, text)),
        text_delta_tree(index, text).member("index"@) == Some(
            JsonTree::Number(json_number(index as u32)),
        ),
        text_delta_tree(index, text).member("delta"@) matches Some(delta) && delta.member_text(
            "text"@,
        ) == Some(text),
{
    let tree = text_delta_tree(index, text);
    lemma_keys();
    assert(reads_back(tree, 127)) by {
        reveal_with_fuel(reads_back, 3);
        assert(tree->Object_0["index"@] == JsonTree::Number(json_number(index as u32)));
    }
    assert(json_text(tree) == text_frame(index, text).data);
}

pub(crate) proof fn lemma_read_tool_start(f: ChunkView, index: int, call: nat, name: Seq<char>)
    requires
        f == frame("content_block_start"@, json_text(tool_start_tree(index, call, name))),
        is_legible(f),
    ensures
        json_parse(f.data) == Some(tool_start_tree(index, call, name)),
        tool_start_tree(index, call, name).member("index"@) == Some(
            JsonTree::Number(json_number(index as u32)),
        ),
        tool_start_tree(index, call, name).member("content_block"@) matches Some(block)
            && block.member_text("type"@) == Some("tool_use"@),
{
    let tree = tool_start_tree(index, call, name);
    lemma_keys();
    assert(reads_back(tree, 127)) by {
        reveal_with_fuel(reads_back, 4);
        assert(tree->Object_0["index"@] == JsonTree::Number(json_number(index as u32)));
    }
    assert(json_text(tree) == f.data);
}

pub(crate) proof fn lemma_read_tool_input(f: ChunkView, index: int, args: Seq<char>)
    requires
        f == frame("content_block_delta"@, json_text(tool_input_tree(index, args))),
        is_legible(f),
    ensures
        json_parse(f.data) == Some(tool_input_tree(index, args)),
        tool_input_tree(index, args).member("index"@) == Some(
            JsonTree::Number(json_number(index as u32)),
        ),
        tool_input_tree(index, args).member("delta"@) matches Some(delta) && delta.member_text(
            "text"@,
        ) is None && delta.member_text("partial_json"@) == Some(args),
{
    let tree = tool_input_tree(index, args);
    lemma_keys();
    assert(reads_back(tree, 127)) by {
        reveal_with_fuel(reads_back, 3);
        assert(tree->Object_0["index"@] == JsonTree::Number(json_number(index as u32)));
    }
    assert(json_text(tree) == f.data);
}

pub(crate) proof fn lemma_read_tool_stop(f: ChunkView, index: int)
    requires
        f == frame("content_block_stop"@, json_text(tool_stop_tree(index))),
        is_legible(f),
    ensures
        json_parse(f.data) == Some(tool_stop_tree(index)),
        tool_stop_tree(index).member("index"@) == Some(
            JsonTree::Number(json_number(index as u32)),
        ),
{
    let tree = tool_stop_tree(index);
    lemma_keys();
    assert(reads_back(tree, 127)) by {
        reveal_with_fuel(reads_back, 3);
        assert(tree->Object_0["index"@] == JsonTree::Number(json_number(index as u32)));
    }
    assert(json_text(tree) == f.data);
}

// ---- Frames in plain notation -------------------------------------------------------------

/// The notation of the frame that starts a text block.
spec fn text_start_notation(index: u32) -> Notation {
    Notation::Members(
        seq![
            ("type"@, Notation::Word("content_block_start"@)),
            ("index"@, Notation::Natural(index)),
            (
                "content_block"@,
                Notation::Members(
                    seq![
                        ("type"@, Notation::Word("text"@)),
                        ("text"@, Notation::Word(Seq::empty())),
                    ],
                ),
            ),
        ],
    )
}

proof fn lemma_members_text_step(members: Seq<(Seq<char>, Notation)>, key: Seq<char>, n: Notation)
    requires
        members.len() > 0,
    ensures
        members_text(members.push((key, n))) == members_text(members) + seq![','] + (quoted(key)
            + seq![':'] + n.text()),
{
    assert(members.push((key, n)).drop_last() =~= members);
}

proof fn lemma_members_text_first(key: Seq<char>, n: Notation)
    ensures
        members_text(seq![(key, n)]) == quoted(key) + seq![':'] + n.text(),
{
}

proof fn lemma_text_start_text(index: u32)
    ensures
        text_start_notation(index).text() == text_start_data(index as nat),
{
    let word = Notation::Word("content_block_start"@);
    let kind = ("type"@, Notation::Word("text"@));
    let blank = Notation::Word(Seq::<char>::empty());
    let inner = seq![kind, ("text"@, blank)];
    lemma_members_text_first("type"@, Notation::Word("text"@));
    assert(inner =~= seq![kind].push(("text"@, blank)));
    lemma_members_text_step(seq![kind], "text"@, blank);
    let one = seq![("type"@, word)];
    lemma_members_text_first("type"@, word);
    let two = one.push(("index"@, Notation::Natural(index)));
    lemma_members_text_step(one, "index"@, Notation::Natural(index));
    lemma_members_text_step(two, "content_block"@, Notation::Members(inner));
    assert(text_start_notation(index)->Members_0 =~= two.push(
        ("content_block"@, Notation::Members(inner)),
    ));
    let front = "{\"type\":\"content_block_start\",\"index\":"@;
    let back = ",\"content_block\":{\"type\":\"text\",\"text\":\"\"}}"@;
    let number = decimal(index as nat);
    reveal_strlit("{\"type\":\"content_block_start\",\"index\":");
    reveal_strlit(",\"content_block\":{\"type\":\"text\",\"text\":\"\"}}");
    reveal_strlit("type");
    reveal_strlit("text");
    reveal_strlit("index");
    reveal_strlit("content_block");
    reveal_strlit("content_block_start");
    assert(front =~= seq!['{'] + (quoted("type"@) + seq![':'] + quoted("content_block_start"@))
        + seq![','] + (quoted("index"@) + seq![':']));
    let inner_text = (quoted("type"@) + seq![':'] + quoted("text"@)) + seq![','] + (quoted("text"@)
        + seq![':'] + quoted(Seq::empty()));
    assert(back =~= seq![','] + (quoted("content_block"@) + seq![':'] + (seq!['{'] + inner_text
        + seq!['}'])) + seq!['}']);
    assert(text_start_notation(index).text() =~= front + number + back);
}

pub(crate) proof fn lemma_read_text_start(index: nat)
    requires
        index <= u32::MAX,
        is_legible(text_start_frame(index)),
    ensures
        json_parse(text_start_frame(index).data) matches Some(tree) && tree.member("index"@) == Some(
            JsonTree::Number(json_number(index as u32)),
        ) && (tree.member("content_block"@) matches Some(block) && block.member_text("type"@)
            == Some("text"@)),
{
    let f = text_start_frame(index);
    let n = text_start_notation(index as u32);
    let members = n->Members_0;
    let front = members.drop_last();
    let inner = members[2].1->Members_0;
    lemma_keys();
    lemma_text_start_text(index as u32);
    reveal_strlit("type");
    reveal_strlit("text");
    reveal_strlit("index");
    reveal_strlit("content_block");
    reveal_strlit("content_block_start");
    assert(is_word("type"@));
    assert(is_word("text"@));
    assert(is_word("index"@));
    assert(is_word("content_block"@));
    assert(is_word("content_block_start"@));
    assert(n.is_legal(127)) by {
        reveal_with_fuel(Notation::is_legal, 4);
        assert(members[2].1.is_legal(126));
    }
    assert(n.text() == f.data);
    assert(json_parse(f.data) == Some(n.tree()));
    reveal_with_fuel(Notation::tree, 4);
    reveal_with_fuel(notation_members, 4);
    assert(front.last() == ("index"@, Notation::Natural(index as u32)));
    assert(members.last().0 == "content_block"@);
    assert(notation_members(front)["index"@] == Notation::Natural(index as u32).tree());
    let block = members[2].1.tree();
    assert(n.tree()->Object_0["content_block"@] == block);
    assert(inner.drop_last().last() == ("type"@, Notation::Word("text"@)));
    assert(block->Object_0["type"@] == JsonTree::Str("text"@));
}

/// The notation of the frame that ends a text block.
spec fn text_stop_notation(index: u32) -> Notation {
    Notation::Members(
        seq![
            ("type"@, Notation::Word("content_block_stop"@)),
            ("index"@, Notation::Natural(index)),
        ],
    )
}

proof fn lemma_text_stop_text(index: u32)
    ensures
        text_stop_notation(index).text() == text_stop_data(index as nat),
{
    let word = Notation::Word("content_block_stop"@);
    let one = seq![("type"@, word)];
    lemma_members_text_first("type"@, word);
    lemma_members_text_step(one, "index"@, Notation::Natural(index));
    assert(text_stop_notation(index)->Members_0 =~= one.push(
        ("index"@, Notation::Natural(index)),
    ));
    let front = "{\"type\":\"content_block_stop\",\"index\":"@;
    reveal_strlit("{\"type\":\"content_block_stop\",\"index\":");
    reveal_strlit("}");
    reveal_strlit("type");
    reveal_strlit("index");
    reveal_strlit("content_block_stop");
    assert(front =~= seq!['{'] + (quoted("type"@) + seq![':'] + quoted("content_block_stop"@))
        + seq![','] + (quoted("index"@) + seq![':']));
    assert("}"@ =~= seq!['}']);
    assert(text_stop_notation(index).text() =~= front + decimal(index as nat) + "}"@);
}

pub(crate) proof fn lemma_read_text_stop(index: nat)
    requires
        index <= u32::MAX,
        is_legible(text_stop_frame(index)),
    ensures
        json_parse(text_stop_frame(index).data) matches Some(tree) && tree.member("index"@) == Some(
            JsonTree::Number(json_number(index as u32)),
        ),
{
    let f = text_stop_frame(index);
    let n = text_stop_notation(index as u32);
    let members = n->Members_0;
    lemma_keys();
    lemma_text_stop_text(index as u32);
    reveal_strlit("type");
    reveal_strlit("index");
    reveal_strlit("content_block_stop");
    reveal_with_fuel(Notation::is_legal, 3);
    assert(is_word("type"@));
    assert(is_word("index"@));
    assert(is_word("content_block_stop"@));
    assert(n.is_legal(127));
    assert(n.text() == f.data);
    reveal_with_fuel(Notation::tree, 2);
    reveal_with_fuel(notation_members, 3);
    assert(members.last() == ("index"@, Notation::Natural(index as u32)));
}

/// The second frame of a message starts its first text block.
pub(crate) proof fn lemma_first_block(model: Seq<char>)
    ensures
        initial_frames(model)[1] == text_start_frame(0),
{
    reveal_strlit("{\"type\":\"content_block_start\",\"index\":");
    reveal_strlit(",\"content_block\":{\"type\":\"text\",\"text\":\"\"}}");
    reveal_strlit(
        "{\"type\":\"content_block_start\",\"index\":0,\"content_block\":{\"type\":\"text\",\"text\":\"\"}}",
    );
    assert(decimal(0) =~= seq!['0']);
    assert(initial_frames(model)[1].data =~= text_start_data(0));
}

} // verus!
