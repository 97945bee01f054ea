//! The default document that a reset writes: its text, and the document that
//! the text is the print of.

use vstd::prelude::*;
use crate::pretty::{rendered, rendered_member, rendered_members};
use crate::text::{blanks, decimal};
use crate::unambiguous::{lemma_printing_is_unambiguous, plain, quote_free};
use crate::value::{Json, Members, Number};

verus! {

/// The document that a reset writes to the settings file.
pub const DEFAULT_JSON: &'static str = "{
  \"General$\": {
    \"Language\": \"en\",
    \"AutoConnect\": true
  },
  \"Video\": {
    \"Bitrate\": 100,
    \"Sharpen\": 50
  },
  \"Audio\": {
    \"Microphone\": false,
    \"Volume\": 80
  }
}";

/// A whole number that is not negative, as a value.
pub open spec fn whole(n: u64) -> Json {
    Json::Number(Number { positive: true, mantissa: n, exponent: 0 })
}

/// The categories of the default document, in their order.
pub open spec fn default_members() -> Members {
    seq![
        (
            "General$"@,
            Json::Object(
                seq![("Language"@, Json::String("en"@)), ("AutoConnect"@, Json::Boolean(true))],
            ),
        ),
        ("Video"@, Json::Object(seq![("Bitrate"@, whole(100)), ("Sharpen"@, whole(50))])),
        (
            "Audio"@,
            Json::Object(seq![("Microphone"@, Json::Boolean(false)), ("Volume"@, whole(80))]),
        ),
    ]
}

/// The printed text of an object of two members.
proof fn lemma_pair(a: (Seq<char>, Json), b: (Seq<char>, Json), indent: nat)
    ensures
        rendered(Json::Object(seq![a, b]), indent) == "{\n"@ + rendered_member(a, indent) + ",\n"@
            + rendered_member(b, indent) + "\n"@ + blanks((indent - 2) as nat) + "}"@,
{
    let m = seq![a, b];
    assert(Json::Object(m)->Object_0 == m);
    assert(rendered_members(m, 1, indent) == rendered_member(m[0], indent));
    assert(rendered_members(m, 2, indent) == rendered_members(m, 1, indent) + ",\n"@
        + rendered_member(m[1], indent));
}

/// The literals that the printed form is made of, and the blanks of the two
/// indentations of the default document.
proof fn lemma_parts()
    ensures
        "{\n"@ == seq!['{', '\n'],
        ",\n"@ == seq![',', '\n'],
        "\n"@ == seq!['\n'],
        "}"@ == seq!['}'],
        "\""@ == seq!['"'],
        "\": "@ == seq!['"', ':', ' '],
        "true"@ == seq!['t', 'r', 'u', 'e'],
        "false"@ == seq!['f', 'a', 'l', 's', 'e'],
        blanks(0) == Seq::<char>::empty(),
        blanks(2) == seq![' ', ' '],
        blanks(4) == seq![' ', ' ', ' ', ' '],
{
    reveal_strlit("{\n");
    reveal_strlit(",\n");
    reveal_strlit("\n");
    reveal_strlit("}");
    reveal_strlit("\"");
    reveal_strlit("\": ");
    reveal_strlit("true");
    reveal_strlit("false");
    assert("{\n"@ =~= seq!['{', '\n']);
    assert(",\n"@ =~= seq![',', '\n']);
    assert("\n"@ =~= seq!['\n']);
    assert("}"@ =~= seq!['}']);
    assert("\""@ =~= seq!['"']);
    assert("\": "@ =~= seq!['"', ':', ' ']);
    assert("true"@ =~= seq!['t', 'r', 'u', 'e']);
    assert("false"@ =~= seq!['f', 'a', 'l', 's', 'e']);
    assert(blanks(0) =~= Seq::<char>::empty());
    assert(blanks(2) =~= seq![' ', ' ']);
    assert(blanks(4) =~= seq![' ', ' ', ' ', ' ']);
}

/// The first category, printed.
proof fn lemma_general_text()
    ensures
        rendered(default_members()[0].1, 4)
            == "{\n    \"Language\": \"en\",\n    \"AutoConnect\": true\n  }"@,
{
    lemma_parts();
    reveal_strlit("en");
    reveal_strlit("Language");
    reveal_strlit("AutoConnect");
    reveal_strlit("{\n    \"Language\": \"en\",\n    \"AutoConnect\": true\n  }");
    lemma_pair(("Language"@, Json::String("en"@)), ("AutoConnect"@, Json::Boolean(true)), 4);
    assert(rendered(default_members()[0].1, 4)
        =~= "{\n    \"Language\": \"en\",\n    \"AutoConnect\": true\n  }"@);
}

/// The second category, printed.
proof fn lemma_video_text()
    ensures
        rendered(default_members()[1].1, 4)
            == "{\n    \"Bitrate\": 100,\n    \"Sharpen\": 50\n  }"@,
{
    lemma_parts();
    reveal_with_fuel(decimal, 4);
    assert(decimal(100) =~= seq!['1', '0', '0']);
    assert(decimal(50) =~= seq!['5', '0']);
    assert(rendered(whole(100), 6) =~= seq!['1', '0', '0']);
    assert(rendered(whole(50), 6) =~= seq!['5', '0']);
    reveal_strlit("Bitrate");
    reveal_strlit("Sharpen");
    reveal_strlit("{\n    \"Bitrate\": 100,\n    \"Sharpen\": 50\n  }");
    lemma_pair(("Bitrate"@, whole(100)), ("Sharpen"@, whole(50)), 4);
    assert(rendered(default_members()[1].1, 4)
        =~= "{\n    \"Bitrate\": 100,\n    \"Sharpen\": 50\n  }"@);
}

/// The third category, printed.
proof fn lemma_audio_text()
    ensures
        rendered(default_members()[2].1, 4)
            == "{\n    \"Microphone\": false,\n    \"Volume\": 80\n  }"@,
{
    lemma_parts();
    reveal_with_fuel(decimal, 4);
    assert(decimal(80) =~= seq!['8', '0']);
    assert(rendered(whole(80), 6) =~= seq!['8', '0']);
    reveal_strlit("Microphone");
    reveal_strlit("Volume");
    reveal_strlit("{\n    \"Microphone\": false,\n    \"Volume\": 80\n  }");
    lemma_pair(("Microphone"@, Json::Boolean(false)), ("Volume"@, whole(80)), 4);
    assert(rendered(default_members()[2].1, 4)
        =~= "{\n    \"Microphone\": false,\n    \"Volume\": 80\n  }"@);
}

/// The default text is the default document, printed.
pub proof fn lemma_default_text()
    ensures
        DEFAULT_JSON@ == rendered(Json::Object(default_members()), 2),
{
    let m = default_members();
    lemma_parts();
    lemma_general_text();
    lemma_video_text();
    lemma_audio_text();
    reveal_strlit("General$");
    reveal_strlit("Video");
    reveal_strlit("Audio");
    reveal_strlit("{\n    \"Language\": \"en\",\n    \"AutoConnect\": true\n  }");
    reveal_strlit("{\n    \"Bitrate\": 100,\n    \"Sharpen\": 50\n  }");
    reveal_strlit("{\n    \"Microphone\": false,\n    \"Volume\": 80\n  }");
    assert(Json::Object(m)->Object_0 == m);
    assert(rendered_members(m, 1, 2) == rendered_member(m[0], 2));
    assert(rendered_members(m, 2, 2) == rendered_members(m, 1, 2) + ",\n"@ + rendered_member(
        m[1],
        2,
    ));
    assert(rendered_members(m, 3, 2) == rendered_members(m, 2, 2) + ",\n"@ + rendered_member(
        m[2],
        2,
    ));
    reveal_strlit(
        "{
  \"General$\": {
    \"Language\": \"en\",
    \"AutoConnect\": true
  },
  \"Video\": {
    \"Bitrate\": 100,
    \"Sharpen\": 50
  },
  \"Audio\": {
    \"Microphone\": false,
    \"Volume\": 80
  }
}",
    );
    assert(DEFAULT_JSON@ =~= rendered(Json::Object(m), 2));
}

/// An object of two members is plain if its keys and values are.
proof fn lemma_pair_plain(a: (Seq<char>, Json), b: (Seq<char>, Json))
    requires
        quote_free(a.0),
        plain(a.1),
        quote_free(b.0),
        plain(b.1),
    ensures
        plain(Json::Object(seq![a, b])),
{
    let m = seq![a, b];
    assert(Json::Object(m)->Object_0 == m);
}

/// The default document is plain: no key or string of it has a double
/// quote, and its numbers are integers.
pub proof fn lemma_default_plain()
    ensures
        plain(Json::Object(default_members())),
{
    reveal_strlit("en");
    reveal_strlit("General$");
    reveal_strlit("Language");
    reveal_strlit("AutoConnect");
    reveal_strlit("Video");
    reveal_strlit("Bitrate");
    reveal_strlit("Sharpen");
    reveal_strlit("Audio");
    reveal_strlit("Microphone");
    reveal_strlit("Volume");
    assert(quote_free("en"@));
    assert(quote_free("General$"@));
    assert(quote_free("Language"@));
    assert(quote_free("AutoConnect"@));
    assert(quote_free("Video"@));
    assert(quote_free("Bitrate"@));
    assert(quote_free("Sharpen"@));
    assert(quote_free("Audio"@));
    assert(quote_free("Microphone"@));
    assert(quote_free("Volume"@));
    lemma_pair_plain(("Language"@, Json::String("en"@)), ("AutoConnect"@, Json::Boolean(true)));
    lemma_pair_plain(("Bitrate"@, whole(100)), ("Sharpen"@, whole(50)));
    lemma_pair_plain(("Microphone"@, Json::Boolean(false)), ("Volume"@, whole(80)));
    let m = default_members();
    assert(Json::Object(m)->Object_0 == m);
    assert forall|i: int| 0 <= i < m.len() implies quote_free((#[trigger] m[i]).0) && plain(
        m[i].1,
    ) by {
        if i == 0 {
        } else if i == 1 {
        } else {
        }
    }
}

/// A plain document that prints as the default text is the default
/// document.
pub proof fn lemma_default_is_the_only_one(members: Members)
    requires
        plain(Json::Object(members)),
        rendered(Json::Object(members), 2) == DEFAULT_JSON@,
    ensures
        members == default_members(),
{
    lemma_default_text();
    lemma_default_plain();
    lemma_printing_is_unambiguous(Json::Object(members), Json::Object(default_members()), 2);
}

} // verus!
