use gumicord::markdown::{parse, Block, Deco, Inline, InlineKind, Marker};

/// 飾りの付いた文だけを、読める形にして並べる。
///
/// `**a**` → `[B]a`。飾りの無い文字は素で出る
fn flat(text: &str) -> String {
    let mut s = String::new();
    for b in parse(text) {
        write_block(&b, &mut s);
    }
    s
}

fn write_block(b: &Block, s: &mut String) {
    match b {
        Block::Paragraph(c) => write_inlines(c, s),
        Block::Heading { level, content } => {
            s.push_str(&format!("[H{level}]"));
            write_inlines(content, s);
        }
        Block::Subtext(c) => {
            s.push_str("[小]");
            write_inlines(c, s);
        }
        Block::Quote(inner) => {
            s.push_str("[引用{");
            for b in inner {
                write_block(b, s);
            }
            s.push_str("}]");
        }
        Block::List(items) => {
            s.push_str("[箇条{");
            for it in items {
                let m = match it.marker {
                    Marker::Bullet => "・".to_owned(),
                    Marker::Number(n) => format!("{n}."),
                };
                s.push_str(&format!("{}{m}", "  ".repeat(it.depth as usize)));
                write_inlines(&it.content, s);
                s.push(';');
            }
            s.push_str("}]");
        }
        Block::Code { lang, text } => {
            s.push_str(&format!(
                "[コード{}{{{text}}}]",
                lang.as_deref().unwrap_or("")
            ));
        }
    }
    s.push('\n');
}

fn write_inlines(c: &[Inline], s: &mut String) {
    for i in c {
        let mut tag = String::new();
        for (flag, ch) in [
            (Deco::bold(), 'B'),
            (Deco::italic(), 'I'),
            (Deco::underline(), 'U'),
            (Deco::strike(), 'S'),
            (Deco::spoiler(), 'X'),
        ] {
            if i.deco.contains(flag) {
                tag.push(ch);
            }
        }
        if !tag.is_empty() {
            s.push_str(&format!("[{tag}]"));
        }
        match &i.kind {
            InlineKind::Text(t) => s.push_str(t),
            InlineKind::Code(t) => s.push_str(&format!("`{t}`")),
            InlineKind::Link { url, label } => match label {
                Some(l) => s.push_str(&format!("[{l}→{url}]")),
                None => s.push_str(&format!("[→{url}]")),
            },
            InlineKind::Mention(m) => s.push_str(&format!("[{m:?}]")),
            InlineKind::Emoji { name, id, animated } => {
                s.push_str(&format!(
                    "[絵{name}:{id}{}]",
                    if *animated { "*" } else { "" }
                ));
            }
            InlineKind::Timestamp { at, format } => s.push_str(&format!("[時{at}:{format}]")),
            InlineKind::Break => s.push('⏎'),
        }
        // ⚠️ **閉じも書く。** 書かないと「どこで太字が終わったか」が
        // 出力に現れず、飾りの範囲が間違っていてもテストが通ってしまう
        if !tag.is_empty() {
            s.push_str("[/]");
        }
    }
}

// ═══════════════════════════════════════════════════════════════════════
//  飾り

#[test]
fn bold_italic_underline_strike_and_spoiler() {
    assert_eq!(flat("**a**"), "[B]a[/]\n");
    assert_eq!(flat("*a*"), "[I]a[/]\n");
    assert_eq!(flat("_a_"), "[I]a[/]\n");
    assert_eq!(flat("__a__"), "[U]a[/]\n");
    assert_eq!(flat("~~a~~"), "[S]a[/]\n");
    assert_eq!(flat("||a||"), "[X]a[/]\n");
}

#[test]
fn decorations_stack() {
    assert_eq!(flat("***a***"), "[BI]a[/]\n");
    assert_eq!(flat("**~~a~~**"), "[BS]a[/]\n");
    assert_eq!(flat("||**a**||"), "[BX]a[/]\n");
    assert_eq!(flat("___a___"), "[IU]a[/]\n");
}

#[test]
fn inside_and_outside_connect() {
    assert_eq!(flat("前**中**後"), "前[B]中[/]後\n");
}

/// ⚠️ **閉じない印は文字である。** ここが崩れると本文が丸ごと消える
#[test]
fn an_unclosed_mark_is_text() {
    assert_eq!(flat("**a"), "**a\n");
    assert_eq!(flat("a ** b"), "a ** b\n");
    assert_eq!(flat("||隠し"), "||隠し\n");
    assert_eq!(flat("~~"), "~~\n");
}

/// `a * b * c` は掛け算であって斜体ではない
#[test]
fn a_mark_before_white_space_does_not_open() {
    assert_eq!(flat("2 * 3 * 4"), "2 * 3 * 4\n");
    assert_eq!(flat("a ** b ** c"), "a ** b ** c\n");
}

#[test]
fn nor_does_one_whose_content_ends_in_it() {
    assert_eq!(flat("*a *b"), "*a *b\n");
}

/// ⚠️ ここが無いと `snake_case_word` が斜体になる
#[test]
fn snake_case_is_not_italic() {
    assert_eq!(flat("snake_case_word"), "snake_case_word\n");
    assert_eq!(flat("a_b_c"), "a_b_c\n");
    // 語の外なら開く
    assert_eq!(flat("_a_ b"), "[I]a[/] b\n");
    assert_eq!(flat("(_a_)"), "([I]a[/])\n");
}

#[test]
fn a_star_opens_inside_a_word() {
    assert_eq!(flat("a*b*c"), "a[I]b[/]c\n");
}

#[test]
fn the_same_decoration_does_not_nest() {
    // 内側の `**` は閉じに使われる
    assert_eq!(flat("**a**b**"), "[B]a[/]b**\n");
}

// ═══════════════════════════════════════════════════════════════════════
//  逃がし

#[test]
fn punctuation_can_be_escaped() {
    assert_eq!(flat(r"\*\*a\*\*"), "**a**\n");
    assert_eq!(flat(r"\|\|a\|\|"), "||a||\n");
}

/// ⚠️ `\n` の `n` を文字にすると、打った `\` が黙って消える
#[test]
fn other_characters_cannot_be_escaped() {
    assert_eq!(flat(r"\n"), "\\n\n");
    assert_eq!(flat(r"C:\Users"), "C:\\Users\n");
}

#[test]
fn an_escaped_mark_does_not_close() {
    assert_eq!(flat(r"**a\*b**"), "[B]a*b[/]\n");
    // `\*` で 1 つ、余った `*` で 1 つ。**どちらも閉じには使わない**
    assert_eq!(flat(r"**a\**b**"), "[B]a**b[/]\n");
}

// ═══════════════════════════════════════════════════════════════════════
//  コード

#[test]
fn code_in_a_line() {
    assert_eq!(flat("`a`"), "`a`\n");
    assert_eq!(flat("``a`b``"), "`a`b`\n");
    assert_eq!(flat("前 `a` 後"), "前 `a` 後\n");
}

/// ⚠️ コードの中の印は文字である
#[test]
fn code_is_not_parsed() {
    assert_eq!(flat("`**a**`"), "`**a**`\n");
    assert_eq!(flat("`<@1>`"), "`<@1>`\n");
}

/// ⚠️ ここが無いと、コードの中の印が外の印を閉じる
#[test]
fn a_mark_in_code_does_not_close_one_outside() {
    assert_eq!(flat("**a `**` b**"), "[B]a [/][B]`**`[/][B] b[/]\n");
}

#[test]
fn unclosed_code_is_back_ticks() {
    assert_eq!(flat("`a"), "`a\n");
}

#[test]
fn code_blocks() {
    assert_eq!(flat("```\na\n```"), "[コード{a}]\n");
    assert_eq!(flat("```js\na\n```"), "[コードjs{a}]\n");
    // 改行が無ければ言語名ではない
    assert_eq!(flat("```js```"), "[コード{js}]\n");
}

/// ⚠️ **行の途中から始まる。** ここで段落が切れる
#[test]
fn a_code_block_begins_in_mid_line() {
    assert_eq!(flat("見て ```js\na\n``` ね"), "見て \n[コードjs{a}]\n ね\n");
}

/// ⚠️ コードブロックの中の `# ` を見出しにしてはいけない
#[test]
fn nothing_in_a_code_block_is_interpreted() {
    assert_eq!(
        flat("```\n# a\n> b\n**c**\n```"),
        "[コード{# a\n> b\n**c**}]\n"
    );
}

#[test]
fn an_unclosed_code_block_is_back_ticks() {
    assert_eq!(flat("```js\na"), "```js⏎a\n");
}

#[test]
fn blank_lines_in_a_code_block_stay() {
    assert_eq!(flat("```\na\n\nb\n```"), "[コード{a\n\nb}]\n");
}

// ═══════════════════════════════════════════════════════════════════════
//  行の頭の印

#[test]
fn headings() {
    assert_eq!(flat("# a"), "[H1]a\n");
    assert_eq!(flat("## a"), "[H2]a\n");
    assert_eq!(flat("### a"), "[H3]a\n");
}

/// ⚠️ `#tag` は見出しではない。空白が要る
#[test]
fn a_hash_without_a_space_is_no_heading() {
    assert_eq!(flat("#tag"), "#tag\n");
    assert_eq!(flat("#### a"), "#### a\n");
    assert_eq!(flat("# "), "# \n");
}

#[test]
fn subtext() {
    assert_eq!(flat("-# a"), "[小]a\n");
}

#[test]
fn quotes() {
    assert_eq!(flat("> a"), "[引用{a\n}]\n");
    // 続く行はまとまる
    assert_eq!(flat("> a\n> b"), "[引用{a⏎b\n}]\n");
    // 続かない行は外へ出る
    assert_eq!(flat("> a\nb"), "[引用{a\n}]\nb\n");
}

#[test]
fn a_lone_angle_is_a_blank_quoted_line() {
    assert_eq!(flat("> a\n>\n> b"), "[引用{a\nb\n}]\n");
}

#[test]
fn three_angles_quote_the_rest() {
    assert_eq!(flat(">>> a\nb"), "[引用{a⏎b\n}]\n");
}

#[test]
fn quotes_nest() {
    assert_eq!(flat("> > a"), "[引用{[引用{a\n}]\n}]\n");
}

/// ⚠️ 深さに上限が無いと、`>` を千個並べた本文で潜り切る
#[test]
fn quote_depth_is_limited() {
    let deep = "> ".repeat(500) + "a";
    let _ = flat(&deep);
}

#[test]
fn lists() {
    assert_eq!(flat("- a\n- b"), "[箇条{・a;・b;}]\n");
    assert_eq!(flat("* a"), "[箇条{・a;}]\n");
    assert_eq!(flat("1. a\n2. b"), "[箇条{1.a;2.b;}]\n");
}

#[test]
fn lists_indent() {
    assert_eq!(flat("- a\n  - b"), "[箇条{・a;  ・b;}]\n");
}

/// ⚠️ 桁を数えないと `u32` が溢れる
#[test]
fn a_long_number_is_no_list() {
    assert_eq!(flat("99999999999. a"), "99999999999. a\n");
}

#[test]
fn a_marker_without_content_is_no_list() {
    assert_eq!(flat("- "), "- \n");
    assert_eq!(flat("-"), "-\n");
}

// ═══════════════════════════════════════════════════════════════════════
//  段落

#[test]
fn breaks_in_a_paragraph_stay() {
    assert_eq!(flat("a\nb"), "a⏎b\n");
}

#[test]
fn a_blank_line_ends_a_paragraph() {
    assert_eq!(flat("a\n\nb"), "a\nb\n");
}

#[test]
fn an_empty_body_gives_nothing() {
    assert_eq!(parse(""), vec![]);
    assert_eq!(parse("\n\n"), vec![]);
}

// ═══════════════════════════════════════════════════════════════════════
//  メンションと絵文字と時刻

#[test]
fn mentions() {
    assert_eq!(flat("<@1>"), "[User(1)]\n");
    assert_eq!(flat("<@!1>"), "[User(1)]\n");
    assert_eq!(flat("<@&1>"), "[Role(1)]\n");
    assert_eq!(flat("<#1>"), "[Channel(1)]\n");
    assert_eq!(flat("@everyone"), "[Everyone]\n");
    assert_eq!(flat("@here"), "[Here]\n");
}

#[test]
fn a_mention_without_a_number_is_text() {
    assert_eq!(flat("<@abc>"), "<@abc>\n");
    assert_eq!(flat("<@>"), "<@>\n");
    assert_eq!(flat("a < b > c"), "a < b > c\n");
}

#[test]
fn emoji() {
    assert_eq!(flat("<:neko:1>"), "[絵neko:1]\n");
    assert_eq!(flat("<a:neko:1>"), "[絵neko:1*]\n");
}

#[test]
fn timestamps() {
    assert_eq!(flat("<t:1700000000:R>"), "[時1700000000:R]\n");
    // 書式が無ければ既定
    assert_eq!(flat("<t:1700000000>"), "[時1700000000:f]\n");
    // 知らない書式は文字のまま
    assert_eq!(flat("<t:1:z>"), "<t:1:z>\n");
}

// ═══════════════════════════════════════════════════════════════════════
//  リンク

#[test]
fn bare_links() {
    assert_eq!(flat("https://example.com"), "[→https://example.com]\n");
    assert_eq!(
        flat("見て http://a.b/c だよ"),
        "見て [→http://a.b/c] だよ\n"
    );
}

/// ⚠️ 文末の記号まで URL に入れるとリンクが切れる
#[test]
fn sentence_ends_stay_out_of_links() {
    assert_eq!(flat("https://a.b/c。"), "[→https://a.b/c]。\n");
    assert_eq!(flat("(https://a.b/c)"), "([→https://a.b/c])\n");
    assert_eq!(flat("https://a.b/c!"), "[→https://a.b/c]!\n");
}

#[test]
fn no_link_in_mid_word() {
    assert_eq!(flat("ahttps://a.b"), "ahttps://a.b\n");
}

#[test]
fn named_links() {
    assert_eq!(flat("[ここ](https://a.b)"), "[ここ→https://a.b]\n");
}

#[test]
fn a_named_link_needs_a_url() {
    assert_eq!(flat("[a](b)"), "[a](b)\n");
    assert_eq!(flat("[a]"), "[a]\n");
}

#[test]
fn links_in_angle_brackets() {
    assert_eq!(flat("<https://a.b>"), "[→https://a.b]\n");
    // 中で切らない
    assert_eq!(flat("<https://a.b/x_y>"), "[→https://a.b/x_y]\n");
}

// ═══════════════════════════════════════════════════════════════════════
//  壊れた入力で落ちない

/// ⚠️ 本文は他人が打った文字列である。**落ちないことが要件である**
#[test]
fn broken_input_does_not_panic() {
    let ugly = [
        "***",
        "****",
        "```",
        "``````",
        "||||",
        "~~~~",
        "<@",
        "<:::>",
        "[](",
        "> > > > > > > > > > a",
        "- - - - -",
        "\\",
        "*_~|`<>[]()#-",
        "**a*b**c*",
        "`` ` ``",
        "\u{0}\u{1}\u{feff}",
    ];
    for s in ugly {
        let _ = parse(s);
    }
}

/// 多バイト文字の途中で切らない
#[test]
fn japanese_and_emoji_are_not_cut() {
    assert_eq!(flat("**あい**うえ"), "[B]あい[/]うえ\n");
    assert_eq!(flat("🎉**あ**🎉"), "🎉[B]あ[/]🎉\n");
    assert_eq!(flat("あ_い_う"), "あ_い_う\n");
}

// ═══════════════════════════════════════════════════════════════════════
//  組み合わせ

#[test]
fn a_body_as_it_comes() {
    let src = "# お知らせ\n\
               <@123> さん、**明日** の会議は <#456> です。\n\
               -# 変更は <t:1700000000:R>\n\
               \n\
               - `cargo test` を通す\n\
               - ~~急ぐ~~ 落ち着いてやる\n\
               \n\
               > 詳しくは https://example.com/doc\n\
               \n\
               ```rust\n\
               fn main() {}\n\
               ```";
    assert_eq!(
        flat(src),
        "[H1]お知らせ\n\
         [User(123)] さん、[B]明日[/] の会議は [Channel(456)] です。\n\
         [小]変更は [時1700000000:R]\n\
         [箇条{・`cargo test` を通す;・[S]急ぐ[/] 落ち着いてやる;}]\n\
         [引用{詳しくは [→https://example.com/doc]\n}]\n\
         [コードrust{fn main() {}}]\n"
    );
}

/// Nothing disappears but the backslash of an escape and the marks that were
/// opened and closed.
#[test]
fn only_closed_marks_and_escapes_disappear() {
    let shown = |text: &str| {
        let mut s = String::new();
        for b in parse(text) {
            if let Block::Paragraph(content) = b {
                for i in content {
                    if let InlineKind::Text(t) = i.kind {
                        s.push_str(&t);
                    }
                }
            }
        }
        s
    };
    assert_eq!(shown(r"a \* **b** _c d* \e"), r"a * b _c d* \e");
    assert_eq!(shown("snake_case_name"), "snake_case_name");
}

/// A plus stands at the head of a list line as well.
#[test]
fn a_plus_is_a_bullet() {
    let items = match &parse("+ a\n- b\n* c")[..] {
        [Block::List(items)] => items.clone(),
        other => panic!("{other:?}"),
    };
    assert_eq!(items.len(), 3);
    assert!(items.iter().all(|i| i.marker == Marker::Bullet && i.depth == 0));
    assert_eq!(items[0].content, vec![Inline::text("a".to_owned(), Deco::none())]);
    assert!(matches!(&parse("+a")[..], [Block::Paragraph(_)]));
}
