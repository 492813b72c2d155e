//! The catalogue of preset GGUF models (Q4_K_M quantisation) that can be
//! downloaded by name.
use vstd::prelude::*;
use crate::text::{
    chars_of, decimal, decimal_chars, pad_end, pad_start, padded_end, padded_start, repeat_char,
    repeated, string_from_chars,
};

verus! {

/// A preset model.
#[derive(Debug, Clone, Copy, PartialEq, Eq, Structural)]
pub enum Preset {
    Llama321b,
    Llama323b,
    Llama318b,
    Mistral7b,
    Qwen257b,
    Gemma31b,
    Gemma34b,
    Swallow8b,
    ElyzaJp8b,
    Calm322b,
    Gemma2Jpn2b,
    Gemma312b,
}

/// The presets in catalogue order.
pub open spec fn preset_order() -> Seq<Preset> {
    seq![
        Preset::Llama321b,
        Preset::Llama323b,
        Preset::Llama318b,
        Preset::Mistral7b,
        Preset::Qwen257b,
        Preset::Gemma31b,
        Preset::Gemma34b,
        Preset::Swallow8b,
        Preset::ElyzaJp8b,
        Preset::Calm322b,
        Preset::Gemma2Jpn2b,
        Preset::Gemma312b,
    ]
}

/// The language group a preset is listed under.
#[derive(Debug, Clone, Copy, PartialEq, Eq, Structural)]
pub enum Group {
    /// General-purpose (English) models.
    General,
    /// Models tuned for Japanese.
    Japanese,
}

/// The command-line name of each preset.
pub open spec fn spec_preset_name(p: Preset) -> Seq<char> {
    match p {
        Preset::Llama321b => "llama32-1b"@,
        Preset::Llama323b => "llama32-3b"@,
        Preset::Llama318b => "llama31-8b"@,
        Preset::Mistral7b => "mistral-7b"@,
        Preset::Qwen257b => "qwen25-7b"@,
        Preset::Gemma31b => "gemma3-1b"@,
        Preset::Gemma34b => "gemma3-4b"@,
        Preset::Swallow8b => "swallow-8b"@,
        Preset::ElyzaJp8b => "elyza-jp-8b"@,
        Preset::Calm322b => "calm3-22b"@,
        Preset::Gemma2Jpn2b => "gemma2-jpn-2b"@,
        Preset::Gemma312b => "gemma3-12b"@,
    }
}

/// The Hugging Face repository each preset is downloaded from.
pub open spec fn spec_repo_id(p: Preset) -> Seq<char> {
    match p {
        Preset::Llama321b => "bartowski/Llama-3.2-1B-Instruct-GGUF"@,
        Preset::Llama323b => "bartowski/Llama-3.2-3B-Instruct-GGUF"@,
        Preset::Llama318b => "bartowski/Meta-Llama-3.1-8B-Instruct-GGUF"@,
        Preset::Mistral7b => "bartowski/Mistral-7B-Instruct-v0.3-GGUF"@,
        Preset::Qwen257b => "bartowski/Qwen2.5-7B-Instruct-GGUF"@,
        Preset::Gemma31b => "bartowski/gemma-3-1b-it-GGUF"@,
        Preset::Gemma34b => "bartowski/gemma-3-4b-it-GGUF"@,
        Preset::Swallow8b => "mmnga/tokyotech-llm-Llama-3.1-Swallow-8B-Instruct-v0.3-gguf"@,
        Preset::ElyzaJp8b => "mmnga/elyza-Llama-3-ELYZA-JP-8B-GGUF"@,
        Preset::Calm322b => "mmnga/cyberagent-calm3-22b-chat-gguf"@,
        Preset::Gemma2Jpn2b => "bartowski/gemma-2-2b-jpn-it-GGUF"@,
        Preset::Gemma312b => "bartowski/gemma-3-12b-it-GGUF"@,
    }
}

/// The file each preset downloads from its repository.
pub open spec fn spec_filename(p: Preset) -> Seq<char> {
    match p {
        Preset::Llama321b => "Llama-3.2-1B-Instruct-Q4_K_M.gguf"@,
        Preset::Llama323b => "Llama-3.2-3B-Instruct-Q4_K_M.gguf"@,
        Preset::Llama318b => "Meta-Llama-3.1-8B-Instruct-Q4_K_M.gguf"@,
        Preset::Mistral7b => "Mistral-7B-Instruct-v0.3-Q4_K_M.gguf"@,
        Preset::Qwen257b => "Qwen2.5-7B-Instruct-Q4_K_M.gguf"@,
        Preset::Gemma31b => "gemma-3-1b-it-Q4_K_M.gguf"@,
        Preset::Gemma34b => "gemma-3-4b-it-Q4_K_M.gguf"@,
        Preset::Swallow8b => "tokyotech-llm-Llama-3.1-Swallow-8B-Instruct-v0.3-q4_K_M.gguf"@,
        Preset::ElyzaJp8b => "elyza-Llama-3-ELYZA-JP-8B-q4_K_M.gguf"@,
        Preset::Calm322b => "cyberagent-calm3-22b-chat-q4_K_M.gguf"@,
        Preset::Gemma2Jpn2b => "gemma-2-2b-jpn-it-Q4_K_M.gguf"@,
        Preset::Gemma312b => "gemma-3-12b-it-Q4_K_M.gguf"@,
    }
}

/// The approximate download size of each preset.
pub open spec fn spec_size(p: Preset) -> Seq<char> {
    match p {
        Preset::Llama321b => "~0.7 GB"@,
        Preset::Llama323b => "~1.9 GB"@,
        Preset::Llama318b => "~4.7 GB"@,
        Preset::Mistral7b => "~4.1 GB"@,
        Preset::Qwen257b => "~4.4 GB"@,
        Preset::Gemma31b => "~0.8 GB"@,
        Preset::Gemma34b => "~2.5 GB"@,
        Preset::Swallow8b => "~4.9 GB"@,
        Preset::ElyzaJp8b => "~4.9 GB"@,
        Preset::Calm322b => "~13 GB"@,
        Preset::Gemma2Jpn2b => "~1.4 GB"@,
        Preset::Gemma312b => "~7.0 GB"@,
    }
}

/// The one-line description of each preset.
pub open spec fn spec_description(p: Preset) -> Seq<char> {
    match p {
        Preset::Llama321b => "Meta Llama 3.2 超軽量モデル。プロトタイプ・動作確認やメモリ制約の場面に最適。"@,
        Preset::Llama323b => "Meta Llama 3.2 軽量モデル。日常的なタスクを軽く試せるバランス型。"@,
        Preset::Llama318b => "Meta Llama 3.1 標準サイズ。品質・速度・サイズのバランスが良く汎用自然言語処理におすすめ。"@,
        Preset::Mistral7b => "Mistral AI の英語汎用モデル。指示遵守性が高くコーディング・文章生成に実績あり。"@,
        Preset::Qwen257b => "Alibaba Qwen 2.5 モデル。多言語対応で数学・コード生成が得意。中国語・英語両方に強い。"@,
        Preset::Gemma31b => "Google Gemma 3 超小型。モバイル・エッジ等リソース制約環境向け。"@,
        Preset::Gemma34b => "Google Gemma 3 小型。軽加なローカル実行で虚存アシスタントや要約タスクに最適。"@,
        Preset::Swallow8b => "[JP] 東工大 Swallow 。Llama 3.1を日本語テキストで追加学習。日本語・英語バランスよく実用的。"@,
        Preset::ElyzaJp8b => "[JP] ELYZA 日本語特化モデル。Llama 3ベースで日本語の自然な文章生成・対話が得意。"@,
        Preset::Calm322b => "[JP] CyberAgent calm3 大規模日本語モデル。日本語の論理的思考・長文生成が得意。RAM 16GB以上推奨。"@,
        Preset::Gemma2Jpn2b => "[JP] Google公式 Gemma 2 日本語特化モデル。軽量で日本語の対話・要約に最適。"@,
        Preset::Gemma312b => "[JP] Google Gemma 3 12B 多言語モデル。日本語・英語ともに高品質。品質と速度のバランスに優れる。"@,
    }
}

impl Preset {
    /// Every preset, in catalogue order.
    pub fn all() -> (res: Vec<Preset>)
        ensures
            res@ == preset_order(),
    {
        let res = vec![
            Preset::Llama321b,
            Preset::Llama323b,
            Preset::Llama318b,
            Preset::Mistral7b,
            Preset::Qwen257b,
            Preset::Gemma31b,
            Preset::Gemma34b,
            Preset::Swallow8b,
            Preset::ElyzaJp8b,
            Preset::Calm322b,
            Preset::Gemma2Jpn2b,
            Preset::Gemma312b,
        ];
        assert(res@ =~= preset_order());
        res
    }

    /// The command-line name of the preset (as `--preset` takes it).
    pub fn name(&self) -> (res: &'static str)
        ensures
            res@ == spec_preset_name(*self),
    {
        match self {
            Preset::Llama321b => "llama32-1b",
            Preset::Llama323b => "llama32-3b",
            Preset::Llama318b => "llama31-8b",
            Preset::Mistral7b => "mistral-7b",
            Preset::Qwen257b => "qwen25-7b",
            Preset::Gemma31b => "gemma3-1b",
            Preset::Gemma34b => "gemma3-4b",
            Preset::Swallow8b => "swallow-8b",
            Preset::ElyzaJp8b => "elyza-jp-8b",
            Preset::Calm322b => "calm3-22b",
            Preset::Gemma2Jpn2b => "gemma2-jpn-2b",
            Preset::Gemma312b => "gemma3-12b",
        }
    }

    /// The Hugging Face repository the preset is downloaded from.
    pub fn repo_id(&self) -> (res: &'static str)
        ensures
            res@ == spec_repo_id(*self),
    {
        match self {
            Preset::Llama321b => "bartowski/Llama-3.2-1B-Instruct-GGUF",
            Preset::Llama323b => "bartowski/Llama-3.2-3B-Instruct-GGUF",
            Preset::Llama318b => "bartowski/Meta-Llama-3.1-8B-Instruct-GGUF",
            Preset::Mistral7b => "bartowski/Mistral-7B-Instruct-v0.3-GGUF",
            Preset::Qwen257b => "bartowski/Qwen2.5-7B-Instruct-GGUF",
            Preset::Gemma31b => "bartowski/gemma-3-1b-it-GGUF",
            Preset::Gemma34b => "bartowski/gemma-3-4b-it-GGUF",
            Preset::Swallow8b => "mmnga/tokyotech-llm-Llama-3.1-Swallow-8B-Instruct-v0.3-gguf",
            Preset::ElyzaJp8b => "mmnga/elyza-Llama-3-ELYZA-JP-8B-GGUF",
            Preset::Calm322b => "mmnga/cyberagent-calm3-22b-chat-gguf",
            Preset::Gemma2Jpn2b => "bartowski/gemma-2-2b-jpn-it-GGUF",
            Preset::Gemma312b => "bartowski/gemma-3-12b-it-GGUF",
        }
    }

    /// The GGUF file the preset downloads.
    pub fn filename(&self) -> (res: &'static str)
        ensures
            res@ == spec_filename(*self),
    {
        match self {
            Preset::Llama321b => "Llama-3.2-1B-Instruct-Q4_K_M.gguf",
            Preset::Llama323b => "Llama-3.2-3B-Instruct-Q4_K_M.gguf",
            Preset::Llama318b => "Meta-Llama-3.1-8B-Instruct-Q4_K_M.gguf",
            Preset::Mistral7b => "Mistral-7B-Instruct-v0.3-Q4_K_M.gguf",
            Preset::Qwen257b => "Qwen2.5-7B-Instruct-Q4_K_M.gguf",
            Preset::Gemma31b => "gemma-3-1b-it-Q4_K_M.gguf",
            Preset::Gemma34b => "gemma-3-4b-it-Q4_K_M.gguf",
            Preset::Swallow8b => "tokyotech-llm-Llama-3.1-Swallow-8B-Instruct-v0.3-q4_K_M.gguf",
            Preset::ElyzaJp8b => "elyza-Llama-3-ELYZA-JP-8B-q4_K_M.gguf",
            Preset::Calm322b => "cyberagent-calm3-22b-chat-q4_K_M.gguf",
            Preset::Gemma2Jpn2b => "gemma-2-2b-jpn-it-Q4_K_M.gguf",
            Preset::Gemma312b => "gemma-3-12b-it-Q4_K_M.gguf",
        }
    }

    /// The approximate download size.
    pub fn size(&self) -> (res: &'static str)
        ensures
            res@ == spec_size(*self),
    {
        match self {
            Preset::Llama321b => "~0.7 GB",
            Preset::Llama323b => "~1.9 GB",
            Preset::Llama318b => "~4.7 GB",
            Preset::Mistral7b => "~4.1 GB",
            Preset::Qwen257b => "~4.4 GB",
            Preset::Gemma31b => "~0.8 GB",
            Preset::Gemma34b => "~2.5 GB",
            Preset::Swallow8b => "~4.9 GB",
            Preset::ElyzaJp8b => "~4.9 GB",
            Preset::Calm322b => "~13 GB",
            Preset::Gemma2Jpn2b => "~1.4 GB",
            Preset::Gemma312b => "~7.0 GB",
        }
    }

    /// The one-line description.
    pub fn description(&self) -> (res: &'static str)
        ensures
            res@ == spec_description(*self),
    {
        match self {
            Preset::Llama321b => "Meta Llama 3.2 超軽量モデル。プロトタイプ・動作確認やメモリ制約の場面に最適。",
            Preset::Llama323b => "Meta Llama 3.2 軽量モデル。日常的なタスクを軽く試せるバランス型。",
            Preset::Llama318b => "Meta Llama 3.1 標準サイズ。品質・速度・サイズのバランスが良く汎用自然言語処理におすすめ。",
            Preset::Mistral7b => "Mistral AI の英語汎用モデル。指示遵守性が高くコーディング・文章生成に実績あり。",
            Preset::Qwen257b => "Alibaba Qwen 2.5 モデル。多言語対応で数学・コード生成が得意。中国語・英語両方に強い。",
            Preset::Gemma31b => "Google Gemma 3 超小型。モバイル・エッジ等リソース制約環境向け。",
            Preset::Gemma34b => "Google Gemma 3 小型。軽加なローカル実行で虚存アシスタントや要約タスクに最適。",
            Preset::Swallow8b => "[JP] 東工大 Swallow 。Llama 3.1を日本語テキストで追加学習。日本語・英語バランスよく実用的。",
            Preset::ElyzaJp8b => "[JP] ELYZA 日本語特化モデル。Llama 3ベースで日本語の自然な文章生成・対話が得意。",
            Preset::Calm322b => "[JP] CyberAgent calm3 大規模日本語モデル。日本語の論理的思考・長文生成が得意。RAM 16GB以上推奨。",
            Preset::Gemma2Jpn2b => "[JP] Google公式 Gemma 2 日本語特化モデル。軽量で日本語の対話・要約に最適。",
            Preset::Gemma312b => "[JP] Google Gemma 3 12B 多言語モデル。日本語・英語ともに高品質。品質と速度のバランスに優れる。",
        }
    }
}


/// The name prefixes that mark a preset as tuned for Japanese.
pub open spec fn japanese_name_prefix(name: Seq<char>) -> bool {
    ||| "swallow"@.is_prefix_of(name)
    ||| "elyza"@.is_prefix_of(name)
    ||| "calm"@.is_prefix_of(name)
    ||| "gemma2-jpn"@.is_prefix_of(name)
    ||| "gemma3-12b"@.is_prefix_of(name)
}

/// The group a preset name is listed under.
#[verifier::opaque]
pub open spec fn spec_name_group(name: Seq<char>) -> Group {
    if japanese_name_prefix(name) {
        Group::Japanese
    } else {
        Group::General
    }
}

/// The group a preset is listed under.
pub open spec fn spec_group(p: Preset) -> Group {
    spec_name_group(spec_preset_name(p))
}

fn starts_with(s: &[char], prefix: &str) -> (res: bool)
    ensures
        res == prefix@.is_prefix_of(s@),
{
    let p = chars_of(prefix);
    if p.len() > s.len() {
        return false;
    }
    let mut i: usize = 0;
    while i < p.len()
        invariant
            p@ == prefix@,
            p.len() <= s.len(),
            i <= p.len(),
            forall|j: int| 0 <= j < i ==> p@[j] == s@[j],
        decreases p.len() - i,
    {
        if p[i] != s[i] {
            return false;
        }
        i = i + 1;
    }
    assert(p@ =~= s@.subrange(0, p@.len() as int));
    true
}

/// The group under which a preset of the given name is listed: Japanese
/// when the name starts with `swallow`, `elyza`, `calm`, `gemma2-jpn` or
/// `gemma3-12b`, general otherwise.
pub fn name_group(name: &str) -> (res: Group)
    ensures
        res == spec_name_group(name@),
{
    let v = chars_of(name);
    let s = v.as_slice();
    reveal(spec_name_group);
    if starts_with(s, "swallow") || starts_with(s, "elyza") || starts_with(s, "calm")
        || starts_with(s, "gemma2-jpn") || starts_with(s, "gemma3-12b") {
        Group::Japanese
    } else {
        Group::General
    }
}

impl Preset {
    /// The group the preset is listed under.
    pub fn group(&self) -> (res: Group)
        ensures
            res == spec_group(*self),
    {
        name_group(self.name())
    }
}

proof fn lemma_not_prefix(p: Seq<char>, s: Seq<char>, i: int)
    requires
        0 <= i < p.len(),
        i >= s.len() || p[i] != s[i],
    ensures
        !p.is_prefix_of(s),
{
    if p.is_prefix_of(s) {
        assert(p[i] == s.subrange(0, p.len() as int)[i]);
    }
}

/// The presets listed as Japanese are exactly those whose description is
/// marked `[JP]`: Swallow 8B, ELYZA JP 8B, calm3 22B, Gemma 2 JPN 2B and
/// Gemma 3 12B.
pub proof fn lemma_japanese_presets(p: Preset)
    ensures
        (spec_group(p) == Group::Japanese) <==> "[JP]"@.is_prefix_of(spec_description(p)),
        (spec_group(p) == Group::Japanese) <==> (p == Preset::Swallow8b || p == Preset::ElyzaJp8b
            || p == Preset::Calm322b || p == Preset::Gemma2Jpn2b || p == Preset::Gemma312b),
{
    reveal(spec_name_group);
    reveal_strlit("swallow");
    reveal_strlit("elyza");
    reveal_strlit("calm");
    reveal_strlit("gemma2-jpn");
    reveal_strlit("gemma3-12b");
    reveal_strlit("[JP]");
    match p {
        Preset::Llama321b => {
            reveal_strlit("llama32-1b");
            reveal_strlit("Meta Llama 3.2 超軽量モデル。プロトタイプ・動作確認やメモリ制約の場面に最適。");
            lemma_not_prefix("swallow"@, "llama32-1b"@, 0);
            lemma_not_prefix("elyza"@, "llama32-1b"@, 0);
            lemma_not_prefix("calm"@, "llama32-1b"@, 0);
            lemma_not_prefix("gemma2-jpn"@, "llama32-1b"@, 0);
            lemma_not_prefix("gemma3-12b"@, "llama32-1b"@, 0);
            lemma_not_prefix("[JP]"@, "Meta Llama 3.2 超軽量モデル。プロトタイプ・動作確認やメモリ制約の場面に最適。"@, 0);
        },
        Preset::Llama323b => {
            reveal_strlit("llama32-3b");
            reveal_strlit("Meta Llama 3.2 軽量モデル。日常的なタスクを軽く試せるバランス型。");
            lemma_not_prefix("swallow"@, "llama32-3b"@, 0);
            lemma_not_prefix("elyza"@, "llama32-3b"@, 0);
            lemma_not_prefix("calm"@, "llama32-3b"@, 0);
            lemma_not_prefix("gemma2-jpn"@, "llama32-3b"@, 0);
            lemma_not_prefix("gemma3-12b"@, "llama32-3b"@, 0);
            lemma_not_prefix("[JP]"@, "Meta Llama 3.2 軽量モデル。日常的なタスクを軽く試せるバランス型。"@, 0);
        },
        Preset::Llama318b => {
            reveal_strlit("llama31-8b");
            reveal_strlit("Meta Llama 3.1 標準サイズ。品質・速度・サイズのバランスが良く汎用自然言語処理におすすめ。");
            lemma_not_prefix("swallow"@, "llama31-8b"@, 0);
            lemma_not_prefix("elyza"@, "llama31-8b"@, 0);
            lemma_not_prefix("calm"@, "llama31-8b"@, 0);
            lemma_not_prefix("gemma2-jpn"@, "llama31-8b"@, 0);
            lemma_not_prefix("gemma3-12b"@, "llama31-8b"@, 0);
            lemma_not_prefix("[JP]"@, "Meta Llama 3.1 標準サイズ。品質・速度・サイズのバランスが良く汎用自然言語処理におすすめ。"@, 0);
        },
        Preset::Mistral7b => {
            reveal_strlit("mistral-7b");
            reveal_strlit("Mistral AI の英語汎用モデル。指示遵守性が高くコーディング・文章生成に実績あり。");
            lemma_not_prefix("swallow"@, "mistral-7b"@, 0);
            lemma_not_prefix("elyza"@, "mistral-7b"@, 0);
            lemma_not_prefix("calm"@, "mistral-7b"@, 0);
            lemma_not_prefix("gemma2-jpn"@, "mistral-7b"@, 0);
            lemma_not_prefix("gemma3-12b"@, "mistral-7b"@, 0);
            lemma_not_prefix("[JP]"@, "Mistral AI の英語汎用モデル。指示遵守性が高くコーディング・文章生成に実績あり。"@, 0);
        },
        Preset::Qwen257b => {
            reveal_strlit("qwen25-7b");
            reveal_strlit("Alibaba Qwen 2.5 モデル。多言語対応で数学・コード生成が得意。中国語・英語両方に強い。");
            lemma_not_prefix("swallow"@, "qwen25-7b"@, 0);
            lemma_not_prefix("elyza"@, "qwen25-7b"@, 0);
            lemma_not_prefix("calm"@, "qwen25-7b"@, 0);
            lemma_not_prefix("gemma2-jpn"@, "qwen25-7b"@, 0);
            lemma_not_prefix("gemma3-12b"@, "qwen25-7b"@, 0);
            lemma_not_prefix("[JP]"@, "Alibaba Qwen 2.5 モデル。多言語対応で数学・コード生成が得意。中国語・英語両方に強い。"@, 0);
        },
        Preset::Gemma31b => {
            reveal_strlit("gemma3-1b");
            reveal_strlit("Google Gemma 3 超小型。モバイル・エッジ等リソース制約環境向け。");
            lemma_not_prefix("swallow"@, "gemma3-1b"@, 0);
            lemma_not_prefix("elyza"@, "gemma3-1b"@, 0);
            lemma_not_prefix("calm"@, "gemma3-1b"@, 0);
            lemma_not_prefix("gemma2-jpn"@, "gemma3-1b"@, 5);
            lemma_not_prefix("gemma3-12b"@, "gemma3-1b"@, 8);
            lemma_not_prefix("[JP]"@, "Google Gemma 3 超小型。モバイル・エッジ等リソース制約環境向け。"@, 0);
        },
        Preset::Gemma34b => {
            reveal_strlit("gemma3-4b");
            reveal_strlit("Google Gemma 3 小型。軽加なローカル実行で虚存アシスタントや要約タスクに最適。");
            lemma_not_prefix("swallow"@, "gemma3-4b"@, 0);
            lemma_not_prefix("elyza"@, "gemma3-4b"@, 0);
            lemma_not_prefix("calm"@, "gemma3-4b"@, 0);
            lemma_not_prefix("gemma2-jpn"@, "gemma3-4b"@, 5);
            lemma_not_prefix("gemma3-12b"@, "gemma3-4b"@, 7);
            lemma_not_prefix("[JP]"@, "Google Gemma 3 小型。軽加なローカル実行で虚存アシスタントや要約タスクに最適。"@, 0);
        },
        Preset::Swallow8b => {
            reveal_strlit("swallow-8b");
            reveal_strlit("[JP] 東工大 Swallow 。Llama 3.1を日本語テキストで追加学習。日本語・英語バランスよく実用的。");
            assert("swallow"@ =~= "swallow-8b"@.subrange(0, 7));
            lemma_not_prefix("elyza"@, "swallow-8b"@, 0);
            lemma_not_prefix("calm"@, "swallow-8b"@, 0);
            lemma_not_prefix("gemma2-jpn"@, "swallow-8b"@, 0);
            lemma_not_prefix("gemma3-12b"@, "swallow-8b"@, 0);
            assert("[JP]"@ =~= "[JP] 東工大 Swallow 。Llama 3.1を日本語テキストで追加学習。日本語・英語バランスよく実用的。"@.subrange(0, 4));
        },
        Preset::ElyzaJp8b => {
            reveal_strlit("elyza-jp-8b");
            reveal_strlit("[JP] ELYZA 日本語特化モデル。Llama 3ベースで日本語の自然な文章生成・対話が得意。");
            lemma_not_prefix("swallow"@, "elyza-jp-8b"@, 0);
            assert("elyza"@ =~= "elyza-jp-8b"@.subrange(0, 5));
            lemma_not_prefix("calm"@, "elyza-jp-8b"@, 0);
            lemma_not_prefix("gemma2-jpn"@, "elyza-jp-8b"@, 0);
            lemma_not_prefix("gemma3-12b"@, "elyza-jp-8b"@, 0);
            assert("[JP]"@ =~= "[JP] ELYZA 日本語特化モデル。Llama 3ベースで日本語の自然な文章生成・対話が得意。"@.subrange(0, 4));
        },
        Preset::Calm322b => {
            reveal_strlit("calm3-22b");
            reveal_strlit("[JP] CyberAgent calm3 大規模日本語モデル。日本語の論理的思考・長文生成が得意。RAM 16GB以上推奨。");
            lemma_not_prefix("swallow"@, "calm3-22b"@, 0);
            lemma_not_prefix("elyza"@, "calm3-22b"@, 0);
            assert("calm"@ =~= "calm3-22b"@.subrange(0, 4));
            lemma_not_prefix("gemma2-jpn"@, "calm3-22b"@, 0);
            lemma_not_prefix("gemma3-12b"@, "calm3-22b"@, 0);
            assert("[JP]"@ =~= "[JP] CyberAgent calm3 大規模日本語モデル。日本語の論理的思考・長文生成が得意。RAM 16GB以上推奨。"@.subrange(0, 4));
        },
        Preset::Gemma2Jpn2b => {
            reveal_strlit("gemma2-jpn-2b");
            reveal_strlit("[JP] Google公式 Gemma 2 日本語特化モデル。軽量で日本語の対話・要約に最適。");
            lemma_not_prefix("swallow"@, "gemma2-jpn-2b"@, 0);
            lemma_not_prefix("elyza"@, "gemma2-jpn-2b"@, 0);
            lemma_not_prefix("calm"@, "gemma2-jpn-2b"@, 0);
            assert("gemma2-jpn"@ =~= "gemma2-jpn-2b"@.subrange(0, 10));
            lemma_not_prefix("gemma3-12b"@, "gemma2-jpn-2b"@, 5);
            assert("[JP]"@ =~= "[JP] Google公式 Gemma 2 日本語特化モデル。軽量で日本語の対話・要約に最適。"@.subrange(0, 4));
        },
        Preset::Gemma312b => {
            reveal_strlit("gemma3-12b");
            reveal_strlit("[JP] Google Gemma 3 12B 多言語モデル。日本語・英語ともに高品質。品質と速度のバランスに優れる。");
            lemma_not_prefix("swallow"@, "gemma3-12b"@, 0);
            lemma_not_prefix("elyza"@, "gemma3-12b"@, 0);
            lemma_not_prefix("calm"@, "gemma3-12b"@, 0);
            lemma_not_prefix("gemma2-jpn"@, "gemma3-12b"@, 5);
            assert("gemma3-12b"@ =~= "gemma3-12b"@.subrange(0, 10));
            assert("[JP]"@ =~= "[JP] Google Gemma 3 12B 多言語モデル。日本語・英語ともに高品質。品質と速度のバランスに優れる。"@.subrange(0, 4));
        },
    }
}

/// The heading printed before the first of a run of Japanese presets.
pub open spec fn japanese_heading() -> Seq<char> {
    "  --- 日本語特化 ---"@ + seq!['\n']
}

/// The heading that goes before the `i`-th preset of `ps`: the Japanese
/// heading where the group switches to Japanese, nothing otherwise.
pub open spec fn group_heading(ps: Seq<Preset>, i: int) -> Seq<char> {
    if spec_group(ps[i]) == Group::Japanese && (i == 0 || spec_group(ps[i - 1]) != Group::Japanese) {
        japanese_heading()
    } else {
        seq![]
    }
}

/// One catalogue line: in a numbered menu `[NN] ` first, then the name
/// padded to 14 characters, the size padded to 9, and the description.
#[verifier::opaque]
pub open spec fn catalogue_row(p: Preset, number: nat, numbered: bool) -> Seq<char> {
    (if numbered {
        seq!['['] + pad_start(decimal(number), 2, ' ') + seq![']', ' ']
    } else {
        seq![]
    }) + pad_end(spec_preset_name(p), 14, ' ') + seq![' '] + pad_end(spec_size(p), 9, ' ')
        + seq![' '] + spec_description(p) + seq!['\n']
}

/// The catalogue lines for the presets `ps`, each preceded by its heading.
pub open spec fn catalogue_rows(ps: Seq<Preset>, numbered: bool) -> Seq<char>
    decreases ps.len(),
{
    if ps.len() == 0 {
        seq![]
    } else {
        let n = ps.len() - 1;
        catalogue_rows(ps.take(n), numbered) + group_heading(ps, n) + catalogue_row(
            ps[n],
            (n + 1) as nat,
            numbered,
        )
    }
}

/// The table printed by `--list-models`.
pub open spec fn list_models_spec() -> Seq<char> {
    pad_end("PRESET"@, 14, ' ') + seq![' '] + pad_end("SIZE"@, 9, ' ') + seq![' ']
        + "DESCRIPTION"@ + seq!['\n'] + repeated('-', 80) + seq!['\n'] + catalogue_rows(
        preset_order(),
        false,
    )
}

/// The numbered menu shown when no model is given, ending in the prompt.
pub open spec fn preset_menu_spec() -> Seq<char> {
    seq!['\n'] + "Available models:"@ + seq!['\n'] + pad_end("No."@, 4, ' ') + seq![' ']
        + pad_end("PRESET"@, 14, ' ') + seq![' '] + pad_end("SIZE"@, 9, ' ') + seq![' ']
        + "DESCRIPTION"@ + seq!['\n'] + repeated('-', 70) + seq!['\n'] + catalogue_rows(
        preset_order(),
        true,
    ) + seq!['\n'] + "Select model [1-"@ + decimal(12) + "]: "@
}

fn push_padded(out: &mut String, s: &str, width: usize)
    ensures
        final(out)@ == old(out)@ + pad_end(s@, width as nat, ' '),
{
    let v = padded_end(chars_of(s), width, ' ');
    crate::text::push_chars(out, v.as_slice());
}

fn push_catalogue_row(out: &mut String, p: Preset, number: usize, numbered: bool)
    ensures
        final(out)@ == old(out)@ + catalogue_row(p, number as nat, numbered),
{
    reveal(catalogue_row);
    let ghost start = out@;
    if numbered {
        crate::text::push_char(out, '[');
        let num = padded_start(decimal_chars(number as u64), 2, ' ');
        crate::text::push_chars(out, num.as_slice());
        crate::text::push_char(out, ']');
        crate::text::push_char(out, ' ');
    }
    let ghost after_number = out@;
    push_padded(out, p.name(), 14);
    crate::text::push_char(out, ' ');
    push_padded(out, p.size(), 9);
    crate::text::push_char(out, ' ');
    crate::text::push_text(out, p.description());
    crate::text::push_char(out, '\n');
    assert(out@ =~= start + catalogue_row(p, number as nat, numbered));
}

fn push_catalogue_rows(out: &mut String, numbered: bool)
    ensures
        final(out)@ == old(out)@ + catalogue_rows(preset_order(), numbered),
{
    let all = Preset::all();
    let ghost start = out@;
    let mut i: usize = 0;
    assert(all@.take(0) =~= Seq::<Preset>::empty());
    while i < all.len()
        invariant
            all@ == preset_order(),
            i <= all.len(),
            out@ == start + catalogue_rows(all@.take(i as int), numbered),
        decreases all.len() - i,
    {
        let p = all[i];
        let ghost before = out@;
        let heading = p.group() == Group::Japanese && (i == 0 || all[i - 1].group()
            != Group::Japanese);
        if heading {
            crate::text::push_text(out, "  --- 日本語特化 ---");
            crate::text::push_char(out, '\n');
        }
        assert(out@ =~= before + group_heading(all@, i as int));
        push_catalogue_row(out, p, i + 1, numbered);
        proof {
            let ps = all@.take(i + 1);
            assert(ps.take(i as int) =~= all@.take(i as int));
            assert(group_heading(ps, i as int) == group_heading(all@, i as int));
            assert(out@ =~= start + catalogue_rows(ps, numbered));
        }
        i = i + 1;
    }
    assert(all@.take(all.len() as int) =~= all@);
}

/// The table printed by `--list-models`: a header, a rule of 80 dashes, and
/// one line per preset, with a heading before the Japanese presets.
pub fn list_models_text() -> (res: String)
    ensures
        res@ == list_models_spec(),
{
    let mut out = String::new();
    push_padded(&mut out, "PRESET", 14);
    crate::text::push_char(&mut out, ' ');
    push_padded(&mut out, "SIZE", 9);
    crate::text::push_char(&mut out, ' ');
    crate::text::push_text(&mut out, "DESCRIPTION");
    crate::text::push_char(&mut out, '\n');
    let rule = repeat_char('-', 80);
    crate::text::push_chars(&mut out, rule.as_slice());
    crate::text::push_char(&mut out, '\n');
    push_catalogue_rows(&mut out, false);
    assert(out@ =~= list_models_spec());
    out
}

/// The numbered menu offered when neither `--preset` nor `--model` is given,
/// ending with the prompt for a number.
pub fn preset_menu_text() -> (res: String)
    ensures
        res@ == preset_menu_spec(),
{
    let mut out = String::new();
    crate::text::push_char(&mut out, '\n');
    crate::text::push_text(&mut out, "Available models:");
    crate::text::push_char(&mut out, '\n');
    push_padded(&mut out, "No.", 4);
    crate::text::push_char(&mut out, ' ');
    push_padded(&mut out, "PRESET", 14);
    crate::text::push_char(&mut out, ' ');
    push_padded(&mut out, "SIZE", 9);
    crate::text::push_char(&mut out, ' ');
    crate::text::push_text(&mut out, "DESCRIPTION");
    crate::text::push_char(&mut out, '\n');
    let rule = repeat_char('-', 70);
    crate::text::push_chars(&mut out, rule.as_slice());
    crate::text::push_char(&mut out, '\n');
    push_catalogue_rows(&mut out, true);
    crate::text::push_char(&mut out, '\n');
    crate::text::push_text(&mut out, "Select model [1-");
    let count = decimal_chars(Preset::all().len() as u64);
    crate::text::push_chars(&mut out, count.as_slice());
    crate::text::push_text(&mut out, "]: ");
    assert(out@ =~= preset_menu_spec());
    out
}

/// `s` with its ASCII capital letters made small.
pub open spec fn ascii_lowercase(s: Seq<char>) -> Seq<char> {
    s.map_values(|c: char| if 'A' <= c && c <= 'Z' { ((c as u32) + 32) as char } else { c })
}

/// The owner of the repository each preset is downloaded from.
pub open spec fn repo_owner(p: Preset) -> Seq<char> {
    if p == Preset::Swallow8b || p == Preset::ElyzaJp8b || p == Preset::Calm322b {
        "mmnga"@
    } else {
        "bartowski"@
    }
}

/// Each preset downloads `<owner>/<name>`, from `mmnga` for Swallow 8B,
/// ELYZA JP 8B and calm3 22B and from `bartowski` otherwise; the name ends in
/// `-gguf` (in any case), and the file is that name without `-gguf` followed
/// by `-q4_k_m.gguf` (ignoring the case of ASCII letters): a Q4_K_M GGUF file.
pub proof fn lemma_preset_download_names(p: Preset)
    ensures
        ({
            let r = spec_repo_id(p);
            let o = repo_owner(p);
            let n = r.skip(o.len() + 1int);
            &&& r.len() > o.len() + 5
            &&& r.take(o.len() as int) == o
            &&& r[o.len() as int] == '/'
            &&& ascii_lowercase(n.skip(n.len() - 5)) == "-gguf"@
            &&& ascii_lowercase(spec_filename(p)) == ascii_lowercase(n.take(n.len() - 5))
                + "-q4_k_m.gguf"@
        }),
{
    reveal_strlit("mmnga");
    reveal_strlit("bartowski");
    reveal_strlit("-gguf");
    reveal_strlit("-q4_k_m.gguf");
    match p {
        Preset::Llama321b => {
            reveal_strlit("bartowski/Llama-3.2-1B-Instruct-GGUF");
            reveal_strlit("Llama-3.2-1B-Instruct-Q4_K_M.gguf");
            let r = "bartowski/Llama-3.2-1B-Instruct-GGUF"@;
            let n = r.skip(10);
            assert(r.take(9) =~= "bartowski"@);
            assert(ascii_lowercase(n.skip(n.len() - 5)) =~= "-gguf"@);
            assert(ascii_lowercase("Llama-3.2-1B-Instruct-Q4_K_M.gguf"@) =~= ascii_lowercase(n.take(n.len() - 5)) + "-q4_k_m.gguf"@);
        },
        Preset::Llama323b => {
            reveal_strlit("bartowski/Llama-3.2-3B-Instruct-GGUF");
            reveal_strlit("Llama-3.2-3B-Instruct-Q4_K_M.gguf");
            let r = "bartowski/Llama-3.2-3B-Instruct-GGUF"@;
            let n = r.skip(10);
            assert(r.take(9) =~= "bartowski"@);
            assert(ascii_lowercase(n.skip(n.len() - 5)) =~= "-gguf"@);
            assert(ascii_lowercase("Llama-3.2-3B-Instruct-Q4_K_M.gguf"@) =~= ascii_lowercase(n.take(n.len() - 5)) + "-q4_k_m.gguf"@);
        },
        Preset::Llama318b => {
            reveal_strlit("bartowski/Meta-Llama-3.1-8B-Instruct-GGUF");
            reveal_strlit("Meta-Llama-3.1-8B-Instruct-Q4_K_M.gguf");
            let r = "bartowski/Meta-Llama-3.1-8B-Instruct-GGUF"@;
            let n = r.skip(10);
            assert(r.take(9) =~= "bartowski"@);
            assert(ascii_lowercase(n.skip(n.len() - 5)) =~= "-gguf"@);
            assert(ascii_lowercase("Meta-Llama-3.1-8B-Instruct-Q4_K_M.gguf"@) =~= ascii_lowercase(n.take(n.len() - 5)) + "-q4_k_m.gguf"@);
        },
        Preset::Mistral7b => {
            reveal_strlit("bartowski/Mistral-7B-Instruct-v0.3-GGUF");
            reveal_strlit("Mistral-7B-Instruct-v0.3-Q4_K_M.gguf");
            let r = "bartowski/Mistral-7B-Instruct-v0.3-GGUF"@;
            let n = r.skip(10);
            assert(r.take(9) =~= "bartowski"@);
            assert(ascii_lowercase(n.skip(n.len() - 5)) =~= "-gguf"@);
            assert(ascii_lowercase("Mistral-7B-Instruct-v0.3-Q4_K_M.gguf"@) =~= ascii_lowercase(n.take(n.len() - 5)) + "-q4_k_m.gguf"@);
        },
        Preset::Qwen257b => {
            reveal_strlit("bartowski/Qwen2.5-7B-Instruct-GGUF");
            reveal_strlit("Qwen2.5-7B-Instruct-Q4_K_M.gguf");
            let r = "bartowski/Qwen2.5-7B-Instruct-GGUF"@;
            let n = r.skip(10);
            assert(r.take(9) =~= "bartowski"@);
            assert(ascii_lowercase(n.skip(n.len() - 5)) =~= "-gguf"@);
            assert(ascii_lowercase("Qwen2.5-7B-Instruct-Q4_K_M.gguf"@) =~= ascii_lowercase(n.take(n.len() - 5)) + "-q4_k_m.gguf"@);
        },
        Preset::Gemma31b => {
            reveal_strlit("bartowski/gemma-3-1b-it-GGUF");
            reveal_strlit("gemma-3-1b-it-Q4_K_M.gguf");
            let r = "bartowski/gemma-3-1b-it-GGUF"@;
            let n = r.skip(10);
            assert(r.take(9) =~= "bartowski"@);
            assert(ascii_lowercase(n.skip(n.len() - 5)) =~= "-gguf"@);
            assert(ascii_lowercase("gemma-3-1b-it-Q4_K_M.gguf"@) =~= ascii_lowercase(n.take(n.len() - 5)) + "-q4_k_m.gguf"@);
        },
        Preset::Gemma34b => {
            reveal_strlit("bartowski/gemma-3-4b-it-GGUF");
            reveal_strlit("gemma-3-4b-it-Q4_K_M.gguf");
            let r = "bartowski/gemma-3-4b-it-GGUF"@;
            let n = r.skip(10);
            assert(r.take(9) =~= "bartowski"@);
            assert(ascii_lowercase(n.skip(n.len() - 5)) =~= "-gguf"@);
            assert(ascii_lowercase("gemma-3-4b-it-Q4_K_M.gguf"@) =~= ascii_lowercase(n.take(n.len() - 5)) + "-q4_k_m.gguf"@);
        },
        Preset::Swallow8b => {
            reveal_strlit("mmnga/tokyotech-llm-Llama-3.1-Swallow-8B-Instruct-v0.3-gguf");
            reveal_strlit("tokyotech-llm-Llama-3.1-Swallow-8B-Instruct-v0.3-q4_K_M.gguf");
            let r = "mmnga/tokyotech-llm-Llama-3.1-Swallow-8B-Instruct-v0.3-gguf"@;
            let n = r.skip(6);
            assert(r.take(5) =~= "mmnga"@);
            assert(ascii_lowercase(n.skip(n.len() - 5)) =~= "-gguf"@);
            assert(ascii_lowercase("tokyotech-llm-Llama-3.1-Swallow-8B-Instruct-v0.3-q4_K_M.gguf"@) =~= ascii_lowercase(n.take(n.len() - 5)) + "-q4_k_m.gguf"@);
        },
        Preset::ElyzaJp8b => {
            reveal_strlit("mmnga/elyza-Llama-3-ELYZA-JP-8B-GGUF");
            reveal_strlit("elyza-Llama-3-ELYZA-JP-8B-q4_K_M.gguf");
            let r = "mmnga/elyza-Llama-3-ELYZA-JP-8B-GGUF"@;
            let n = r.skip(6);
            assert(r.take(5) =~= "mmnga"@);
            assert(ascii_lowercase(n.skip(n.len() - 5)) =~= "-gguf"@);
            assert(ascii_lowercase("elyza-Llama-3-ELYZA-JP-8B-q4_K_M.gguf"@) =~= ascii_lowercase(n.take(n.len() - 5)) + "-q4_k_m.gguf"@);
        },
        Preset::Calm322b => {
            reveal_strlit("mmnga/cyberagent-calm3-22b-chat-gguf");
            reveal_strlit("cyberagent-calm3-22b-chat-q4_K_M.gguf");
            let r = "mmnga/cyberagent-calm3-22b-chat-gguf"@;
            let n = r.skip(6);
            assert(r.take(5) =~= "mmnga"@);
            assert(ascii_lowercase(n.skip(n.len() - 5)) =~= "-gguf"@);
            assert(ascii_lowercase("cyberagent-calm3-22b-chat-q4_K_M.gguf"@) =~= ascii_lowercase(n.take(n.len() - 5)) + "-q4_k_m.gguf"@);
        },
        Preset::Gemma2Jpn2b => {
            reveal_strlit("bartowski/gemma-2-2b-jpn-it-GGUF");
            reveal_strlit("gemma-2-2b-jpn-it-Q4_K_M.gguf");
            let r = "bartowski/gemma-2-2b-jpn-it-GGUF"@;
            let n = r.skip(10);
            assert(r.take(9) =~= "bartowski"@);
            assert(ascii_lowercase(n.skip(n.len() - 5)) =~= "-gguf"@);
            assert(ascii_lowercase("gemma-2-2b-jpn-it-Q4_K_M.gguf"@) =~= ascii_lowercase(n.take(n.len() - 5)) + "-q4_k_m.gguf"@);
        },
        Preset::Gemma312b => {
            reveal_strlit("bartowski/gemma-3-12b-it-GGUF");
            reveal_strlit("gemma-3-12b-it-Q4_K_M.gguf");
            let r = "bartowski/gemma-3-12b-it-GGUF"@;
            let n = r.skip(10);
            assert(r.take(9) =~= "bartowski"@);
            assert(ascii_lowercase(n.skip(n.len() - 5)) =~= "-gguf"@);
            assert(ascii_lowercase("gemma-3-12b-it-Q4_K_M.gguf"@) =~= ascii_lowercase(n.take(n.len() - 5)) + "-q4_k_m.gguf"@);
        },
    }
}

/// The length and two characters of a preset's repository id, and the
/// same of its file name: enough to tell any two presets apart.
spec fn download_key(p: Preset) -> (nat, char, char, nat, char, char) {
    match p {
        Preset::Llama321b => (36, '2', '1', 33, '2', '1'),
        Preset::Llama323b => (36, '2', '3', 33, '2', '3'),
        Preset::Llama318b => (41, 'm', '-', 38, 'm', '-'),
        Preset::Mistral7b => (39, '7', '-', 36, '7', '-'),
        Preset::Qwen257b => (34, '7', '-', 31, '7', '-'),
        Preset::Gemma31b => (28, '1', '-', 25, '1', '-'),
        Preset::Gemma34b => (28, '4', '-', 25, '4', '-'),
        Preset::Swallow8b => (59, 'm', 'L', 60, 'h', 'l'),
        Preset::ElyzaJp8b => (36, '3', 'E', 37, 'a', 'a'),
        Preset::Calm322b => (36, 'a', 'm', 37, 'n', '-'),
        Preset::Gemma2Jpn2b => (32, '2', '-', 29, '2', '-'),
        Preset::Gemma312b => (29, '1', 'b', 26, '1', 'b'),
    }
}

proof fn lemma_download_key(p: Preset)
    ensures
        download_key(p) == (
            spec_repo_id(p).len(),
            spec_repo_id(p)[18],
            spec_repo_id(p)[20],
            spec_filename(p).len(),
            spec_filename(p)[8],
            spec_filename(p)[10],
        ),
{
    match p {
        Preset::Llama321b => {
            reveal_strlit("bartowski/Llama-3.2-1B-Instruct-GGUF");
            reveal_strlit("Llama-3.2-1B-Instruct-Q4_K_M.gguf");
        },
        Preset::Llama323b => {
            reveal_strlit("bartowski/Llama-3.2-3B-Instruct-GGUF");
            reveal_strlit("Llama-3.2-3B-Instruct-Q4_K_M.gguf");
        },
        Preset::Llama318b => {
            reveal_strlit("bartowski/Meta-Llama-3.1-8B-Instruct-GGUF");
            reveal_strlit("Meta-Llama-3.1-8B-Instruct-Q4_K_M.gguf");
        },
        Preset::Mistral7b => {
            reveal_strlit("bartowski/Mistral-7B-Instruct-v0.3-GGUF");
            reveal_strlit("Mistral-7B-Instruct-v0.3-Q4_K_M.gguf");
        },
        Preset::Qwen257b => {
            reveal_strlit("bartowski/Qwen2.5-7B-Instruct-GGUF");
            reveal_strlit("Qwen2.5-7B-Instruct-Q4_K_M.gguf");
        },
        Preset::Gemma31b => {
            reveal_strlit("bartowski/gemma-3-1b-it-GGUF");
            reveal_strlit("gemma-3-1b-it-Q4_K_M.gguf");
        },
        Preset::Gemma34b => {
            reveal_strlit("bartowski/gemma-3-4b-it-GGUF");
            reveal_strlit("gemma-3-4b-it-Q4_K_M.gguf");
        },
        Preset::Swallow8b => {
            reveal_strlit("mmnga/tokyotech-llm-Llama-3.1-Swallow-8B-Instruct-v0.3-gguf");
            reveal_strlit("tokyotech-llm-Llama-3.1-Swallow-8B-Instruct-v0.3-q4_K_M.gguf");
        },
        Preset::ElyzaJp8b => {
            reveal_strlit("mmnga/elyza-Llama-3-ELYZA-JP-8B-GGUF");
            reveal_strlit("elyza-Llama-3-ELYZA-JP-8B-q4_K_M.gguf");
        },
        Preset::Calm322b => {
            reveal_strlit("mmnga/cyberagent-calm3-22b-chat-gguf");
            reveal_strlit("cyberagent-calm3-22b-chat-q4_K_M.gguf");
        },
        Preset::Gemma2Jpn2b => {
            reveal_strlit("bartowski/gemma-2-2b-jpn-it-GGUF");
            reveal_strlit("gemma-2-2b-jpn-it-Q4_K_M.gguf");
        },
        Preset::Gemma312b => {
            reveal_strlit("bartowski/gemma-3-12b-it-GGUF");
            reveal_strlit("gemma-3-12b-it-Q4_K_M.gguf");
        },
    }
}

/// Different presets download different repositories and different files.
pub proof fn lemma_preset_downloads_distinct(p: Preset, q: Preset)
    requires
        p != q,
    ensures
        spec_repo_id(p) != spec_repo_id(q),
        spec_filename(p) != spec_filename(q),
{
    lemma_download_key(p);
    lemma_download_key(q);
    let (kp, kq) = (download_key(p), download_key(q));
    assert((kp.0, kp.1, kp.2) != (kq.0, kq.1, kq.2));
    assert((kp.3, kp.4, kp.5) != (kq.3, kq.4, kq.5));
}

/// The words that name each preset's model in the catalogue's documentation
/// (family, version and size): Llama 3.2 1B Instruct, Mistral 7B Instruct
/// v0.3, and so on.
pub open spec fn documented_words(p: Preset) -> Seq<Seq<char>> {
    match p {
        Preset::Llama321b => seq!["Llama"@, "3.2"@, "1B"@, "Instruct"@],
        Preset::Llama323b => seq!["Llama"@, "3.2"@, "3B"@, "Instruct"@],
        Preset::Llama318b => seq!["Llama"@, "3.1"@, "8B"@, "Instruct"@],
        Preset::Mistral7b => seq!["Mistral"@, "7B"@, "Instruct"@, "v0.3"@],
        Preset::Qwen257b => seq!["Qwen"@, "2.5"@, "7B"@, "Instruct"@],
        Preset::Gemma31b => seq!["Gemma"@, "3"@, "1B"@],
        Preset::Gemma34b => seq!["Gemma"@, "3"@, "4B"@],
        Preset::Swallow8b => seq!["Llama"@, "3.1"@, "Swallow"@, "8B"@, "Instruct"@, "v0.3"@],
        Preset::ElyzaJp8b => seq!["ELYZA"@, "Llama"@, "3"@, "JP"@, "8B"@],
        Preset::Calm322b => seq!["calm3"@, "22B"@, "Chat"@],
        Preset::Gemma2Jpn2b => seq!["Gemma"@, "2"@, "2B"@],
        Preset::Gemma312b => seq!["Gemma"@, "3"@, "12B"@],
    }
}

/// `t` occurs in `s`, ignoring the case of ASCII letters.
pub open spec fn contains_ignoring_case(s: Seq<char>, t: Seq<char>) -> bool {
    exists|k: int| 0 <= k && k + t.len() <= s.len() && #[trigger] ascii_lowercase(s.subrange(k, k + t.len())) == ascii_lowercase(t)
}

proof fn lemma_contains_at(s: Seq<char>, t: Seq<char>, k: int)
    requires
        0 <= k,
        k + t.len() <= s.len(),
        ascii_lowercase(s.subrange(k, k + t.len())) =~= ascii_lowercase(t),
    ensures
        contains_ignoring_case(s, t),
{
}

/// Each preset downloads the model it is documented as: every word of its
/// documented name (family, version, size) occurs, ignoring case, both in
/// the repository it is downloaded from and in the file name.
pub proof fn lemma_preset_downloads_documented_model(p: Preset)
    ensures
        forall|i: int|
            0 <= i < documented_words(p).len() ==> contains_ignoring_case(spec_repo_id(p), #[trigger] documented_words(p)[i])
                && contains_ignoring_case(spec_filename(p), documented_words(p)[i]),
{
    let w = documented_words(p);
    let r = spec_repo_id(p);
    let f = spec_filename(p);
    match p {
        Preset::Llama321b => {
            reveal_strlit("bartowski/Llama-3.2-1B-Instruct-GGUF");
            reveal_strlit("Llama-3.2-1B-Instruct-Q4_K_M.gguf");
            reveal_strlit("Llama");
            reveal_strlit("3.2");
            reveal_strlit("1B");
            reveal_strlit("Instruct");
            assert forall|i: int| 0 <= i < w.len() implies contains_ignoring_case(r, #[trigger] w[i]) && contains_ignoring_case(f, w[i]) by {
                if i == 0 {
                    lemma_contains_at(r, "Llama"@, 10);
                    lemma_contains_at(f, "Llama"@, 0);
                } else if i == 1 {
                    lemma_contains_at(r, "3.2"@, 16);
                    lemma_contains_at(f, "3.2"@, 6);
                } else if i == 2 {
                    lemma_contains_at(r, "1B"@, 20);
                    lemma_contains_at(f, "1B"@, 10);
                } else if i == 3 {
                    lemma_contains_at(r, "Instruct"@, 23);
                    lemma_contains_at(f, "Instruct"@, 13);
                }
            }
        },
        Preset::Llama323b => {
            reveal_strlit("bartowski/Llama-3.2-3B-Instruct-GGUF");
            reveal_strlit("Llama-3.2-3B-Instruct-Q4_K_M.gguf");
            reveal_strlit("Llama");
            reveal_strlit("3.2");
            reveal_strlit("3B");
            reveal_strlit("Instruct");
            assert forall|i: int| 0 <= i < w.len() implies contains_ignoring_case(r, #[trigger] w[i]) && contains_ignoring_case(f, w[i]) by {
                if i == 0 {
                    lemma_contains_at(r, "Llama"@, 10);
                    lemma_contains_at(f, "Llama"@, 0);
                } else if i == 1 {
                    lemma_contains_at(r, "3.2"@, 16);
                    lemma_contains_at(f, "3.2"@, 6);
                } else if i == 2 {
                    lemma_contains_at(r, "3B"@, 20);
                    lemma_contains_at(f, "3B"@, 10);
                } else if i == 3 {
                    lemma_contains_at(r, "Instruct"@, 23);
                    lemma_contains_at(f, "Instruct"@, 13);
                }
            }
        },
        Preset::Llama318b => {
            reveal_strlit("bartowski/Meta-Llama-3.1-8B-Instruct-GGUF");
            reveal_strlit("Meta-Llama-3.1-8B-Instruct-Q4_K_M.gguf");
            reveal_strlit("Llama");
            reveal_strlit("3.1");
            reveal_strlit("8B");
            reveal_strlit("Instruct");
            assert forall|i: int| 0 <= i < w.len() implies contains_ignoring_case(r, #[trigger] w[i]) && contains_ignoring_case(f, w[i]) by {
                if i == 0 {
                    lemma_contains_at(r, "Llama"@, 15);
                    lemma_contains_at(f, "Llama"@, 5);
                } else if i == 1 {
                    lemma_contains_at(r, "3.1"@, 21);
                    lemma_contains_at(f, "3.1"@, 11);
                } else if i == 2 {
                    lemma_contains_at(r, "8B"@, 25);
                    lemma_contains_at(f, "8B"@, 15);
                } else if i == 3 {
                    lemma_contains_at(r, "Instruct"@, 28);
                    lemma_contains_at(f, "Instruct"@, 18);
                }
            }
        },
        Preset::Mistral7b => {
            reveal_strlit("bartowski/Mistral-7B-Instruct-v0.3-GGUF");
            reveal_strlit("Mistral-7B-Instruct-v0.3-Q4_K_M.gguf");
            reveal_strlit("Mistral");
            reveal_strlit("7B");
            reveal_strlit("Instruct");
            reveal_strlit("v0.3");
            assert forall|i: int| 0 <= i < w.len() implies contains_ignoring_case(r, #[trigger] w[i]) && contains_ignoring_case(f, w[i]) by {
                if i == 0 {
                    lemma_contains_at(r, "Mistral"@, 10);
                    lemma_contains_at(f, "Mistral"@, 0);
                } else if i == 1 {
                    lemma_contains_at(r, "7B"@, 18);
                    lemma_contains_at(f, "7B"@, 8);
                } else if i == 2 {
                    lemma_contains_at(r, "Instruct"@, 21);
                    lemma_contains_at(f, "Instruct"@, 11);
                } else if i == 3 {
                    lemma_contains_at(r, "v0.3"@, 30);
                    lemma_contains_at(f, "v0.3"@, 20);
                }
            }
        },
        Preset::Qwen257b => {
            reveal_strlit("bartowski/Qwen2.5-7B-Instruct-GGUF");
            reveal_strlit("Qwen2.5-7B-Instruct-Q4_K_M.gguf");
            reveal_strlit("Qwen");
            reveal_strlit("2.5");
            reveal_strlit("7B");
            reveal_strlit("Instruct");
            assert forall|i: int| 0 <= i < w.len() implies contains_ignoring_case(r, #[trigger] w[i]) && contains_ignoring_case(f, w[i]) by {
                if i == 0 {
                    lemma_contains_at(r, "Qwen"@, 10);
                    lemma_contains_at(f, "Qwen"@, 0);
                } else if i == 1 {
                    lemma_contains_at(r, "2.5"@, 14);
                    lemma_contains_at(f, "2.5"@, 4);
                } else if i == 2 {
                    lemma_contains_at(r, "7B"@, 18);
                    lemma_contains_at(f, "7B"@, 8);
                } else if i == 3 {
                    lemma_contains_at(r, "Instruct"@, 21);
                    lemma_contains_at(f, "Instruct"@, 11);
                }
            }
        },
        Preset::Gemma31b => {
            reveal_strlit("bartowski/gemma-3-1b-it-GGUF");
            reveal_strlit("gemma-3-1b-it-Q4_K_M.gguf");
            reveal_strlit("Gemma");
            reveal_strlit("3");
            reveal_strlit("1B");
            assert forall|i: int| 0 <= i < w.len() implies contains_ignoring_case(r, #[trigger] w[i]) && contains_ignoring_case(f, w[i]) by {
                if i == 0 {
                    lemma_contains_at(r, "Gemma"@, 10);
                    lemma_contains_at(f, "Gemma"@, 0);
                } else if i == 1 {
                    lemma_contains_at(r, "3"@, 16);
                    lemma_contains_at(f, "3"@, 6);
                } else if i == 2 {
                    lemma_contains_at(r, "1B"@, 18);
                    lemma_contains_at(f, "1B"@, 8);
                }
            }
        },
        Preset::Gemma34b => {
            reveal_strlit("bartowski/gemma-3-4b-it-GGUF");
            reveal_strlit("gemma-3-4b-it-Q4_K_M.gguf");
            reveal_strlit("Gemma");
            reveal_strlit("3");
            reveal_strlit("4B");
            assert forall|i: int| 0 <= i < w.len() implies contains_ignoring_case(r, #[trigger] w[i]) && contains_ignoring_case(f, w[i]) by {
                if i == 0 {
                    lemma_contains_at(r, "Gemma"@, 10);
                    lemma_contains_at(f, "Gemma"@, 0);
                } else if i == 1 {
                    lemma_contains_at(r, "3"@, 16);
                    lemma_contains_at(f, "3"@, 6);
                } else if i == 2 {
                    lemma_contains_at(r, "4B"@, 18);
                    lemma_contains_at(f, "4B"@, 8);
                }
            }
        },
        Preset::Swallow8b => {
            reveal_strlit("mmnga/tokyotech-llm-Llama-3.1-Swallow-8B-Instruct-v0.3-gguf");
            reveal_strlit("tokyotech-llm-Llama-3.1-Swallow-8B-Instruct-v0.3-q4_K_M.gguf");
            reveal_strlit("Llama");
            reveal_strlit("3.1");
            reveal_strlit("Swallow");
            reveal_strlit("8B");
            reveal_strlit("Instruct");
            reveal_strlit("v0.3");
            assert forall|i: int| 0 <= i < w.len() implies contains_ignoring_case(r, #[trigger] w[i]) && contains_ignoring_case(f, w[i]) by {
                if i == 0 {
                    lemma_contains_at(r, "Llama"@, 20);
                    lemma_contains_at(f, "Llama"@, 14);
                } else if i == 1 {
                    lemma_contains_at(r, "3.1"@, 26);
                    lemma_contains_at(f, "3.1"@, 20);
                } else if i == 2 {
                    lemma_contains_at(r, "Swallow"@, 30);
                    lemma_contains_at(f, "Swallow"@, 24);
                } else if i == 3 {
                    lemma_contains_at(r, "8B"@, 38);
                    lemma_contains_at(f, "8B"@, 32);
                } else if i == 4 {
                    lemma_contains_at(r, "Instruct"@, 41);
                    lemma_contains_at(f, "Instruct"@, 35);
                } else if i == 5 {
                    lemma_contains_at(r, "v0.3"@, 50);
                    lemma_contains_at(f, "v0.3"@, 44);
                }
            }
        },
        Preset::ElyzaJp8b => {
            reveal_strlit("mmnga/elyza-Llama-3-ELYZA-JP-8B-GGUF");
            reveal_strlit("elyza-Llama-3-ELYZA-JP-8B-q4_K_M.gguf");
            reveal_strlit("ELYZA");
            reveal_strlit("Llama");
            reveal_strlit("3");
            reveal_strlit("JP");
            reveal_strlit("8B");
            assert forall|i: int| 0 <= i < w.len() implies contains_ignoring_case(r, #[trigger] w[i]) && contains_ignoring_case(f, w[i]) by {
                if i == 0 {
                    lemma_contains_at(r, "ELYZA"@, 6);
                    lemma_contains_at(f, "ELYZA"@, 0);
                } else if i == 1 {
                    lemma_contains_at(r, "Llama"@, 12);
                    lemma_contains_at(f, "Llama"@, 6);
                } else if i == 2 {
                    lemma_contains_at(r, "3"@, 18);
                    lemma_contains_at(f, "3"@, 12);
                } else if i == 3 {
                    lemma_contains_at(r, "JP"@, 26);
                    lemma_contains_at(f, "JP"@, 20);
                } else if i == 4 {
                    lemma_contains_at(r, "8B"@, 29);
                    lemma_contains_at(f, "8B"@, 23);
                }
            }
        },
        Preset::Calm322b => {
            reveal_strlit("mmnga/cyberagent-calm3-22b-chat-gguf");
            reveal_strlit("cyberagent-calm3-22b-chat-q4_K_M.gguf");
            reveal_strlit("calm3");
            reveal_strlit("22B");
            reveal_strlit("Chat");
            assert forall|i: int| 0 <= i < w.len() implies contains_ignoring_case(r, #[trigger] w[i]) && contains_ignoring_case(f, w[i]) by {
                if i == 0 {
                    lemma_contains_at(r, "calm3"@, 17);
                    lemma_contains_at(f, "calm3"@, 11);
                } else if i == 1 {
                    lemma_contains_at(r, "22B"@, 23);
                    lemma_contains_at(f, "22B"@, 17);
                } else if i == 2 {
                    lemma_contains_at(r, "Chat"@, 27);
                    lemma_contains_at(f, "Chat"@, 21);
                }
            }
        },
        Preset::Gemma2Jpn2b => {
            reveal_strlit("bartowski/gemma-2-2b-jpn-it-GGUF");
            reveal_strlit("gemma-2-2b-jpn-it-Q4_K_M.gguf");
            reveal_strlit("Gemma");
            reveal_strlit("2");
            reveal_strlit("2B");
            assert forall|i: int| 0 <= i < w.len() implies contains_ignoring_case(r, #[trigger] w[i]) && contains_ignoring_case(f, w[i]) by {
                if i == 0 {
                    lemma_contains_at(r, "Gemma"@, 10);
                    lemma_contains_at(f, "Gemma"@, 0);
                } else if i == 1 {
                    lemma_contains_at(r, "2"@, 16);
                    lemma_contains_at(f, "2"@, 6);
                } else if i == 2 {
                    lemma_contains_at(r, "2B"@, 18);
                    lemma_contains_at(f, "2B"@, 8);
                }
            }
        },
        Preset::Gemma312b => {
            reveal_strlit("bartowski/gemma-3-12b-it-GGUF");
            reveal_strlit("gemma-3-12b-it-Q4_K_M.gguf");
            reveal_strlit("Gemma");
            reveal_strlit("3");
            reveal_strlit("12B");
            assert forall|i: int| 0 <= i < w.len() implies contains_ignoring_case(r, #[trigger] w[i]) && contains_ignoring_case(f, w[i]) by {
                if i == 0 {
                    lemma_contains_at(r, "Gemma"@, 10);
                    lemma_contains_at(f, "Gemma"@, 0);
                } else if i == 1 {
                    lemma_contains_at(r, "3"@, 16);
                    lemma_contains_at(f, "3"@, 6);
                } else if i == 2 {
                    lemma_contains_at(r, "12B"@, 18);
                    lemma_contains_at(f, "12B"@, 8);
                }
            }
        },
    }
}

} // verus!
