//! Input schemes the program manages: the Wanxiang family, Ice (雾凇),
//! Frost (白霜) and Mint.
use vstd::prelude::*;
use vstd::string::StringExecFns;

verus! {

broadcast use vstd::string::group_string_axioms;

/// A Rime input scheme.
#[derive(Clone, Copy, Debug, PartialEq, Eq, Structural)]
pub enum Schema {
    WanxiangBase,
    WanxiangMoqi,
    WanxiangFlypy,
    WanxiangZrm,
    WanxiangTiger,
    WanxiangWubi,
    WanxiangHanxin,
    WanxiangShouyou,
    Ice,
    Frost,
    Mint,
}

/// Every scheme, in menu order.
pub open spec fn spec_all_schemas() -> Seq<Schema> {
    seq![
        Schema::WanxiangBase,
        Schema::WanxiangMoqi,
        Schema::WanxiangFlypy,
        Schema::WanxiangZrm,
        Schema::WanxiangTiger,
        Schema::WanxiangWubi,
        Schema::WanxiangHanxin,
        Schema::WanxiangShouyou,
        Schema::Ice,
        Schema::Frost,
        Schema::Mint,
    ]
}

/// The menu position of a scheme.
pub open spec fn spec_schema_position(s: Schema) -> int {
    match s {
        Schema::WanxiangBase => 0,
        Schema::WanxiangMoqi => 1,
        Schema::WanxiangFlypy => 2,
        Schema::WanxiangZrm => 3,
        Schema::WanxiangTiger => 4,
        Schema::WanxiangWubi => 5,
        Schema::WanxiangHanxin => 6,
        Schema::WanxiangShouyou => 7,
        Schema::Ice => 8,
        Schema::Frost => 9,
        Schema::Mint => 10,
    }
}

impl Schema {
    /// A scheme of the Wanxiang family.
    pub open spec fn spec_is_wanxiang(self) -> bool {
        !(self is Ice || self is Frost || self is Mint)
    }

    /// The scheme ships its dictionary as a release asset of its own
    /// (Frost and Mint carry theirs inside the scheme archive).
    pub open spec fn spec_has_separate_dict(self) -> bool {
        !(self is Frost || self is Mint)
    }

    /// The Rime schema id, which names the `<id>.custom.yaml` patch file.
    pub open spec fn spec_schema_id(self) -> Seq<char> {
        match self {
            Schema::WanxiangBase => "wanxiang"@,
            Schema::Ice => "rime_ice"@,
            Schema::Frost => "rime_frost"@,
            Schema::Mint => "rime_mint"@,
            _ => "wanxiang_pro"@,
        }
    }

    /// Every scheme, in menu order.
    pub fn all() -> (r: Vec<Schema>)
        ensures
            r@ == spec_all_schemas(),
    {
        let v = vec![
            Schema::WanxiangBase,
            Schema::WanxiangMoqi,
            Schema::WanxiangFlypy,
            Schema::WanxiangZrm,
            Schema::WanxiangTiger,
            Schema::WanxiangWubi,
            Schema::WanxiangHanxin,
            Schema::WanxiangShouyou,
            Schema::Ice,
            Schema::Frost,
            Schema::Mint,
        ];
        assert(v@ =~= spec_all_schemas());
        v
    }

    /// Whether the scheme belongs to the Wanxiang family.
    pub fn is_wanxiang(&self) -> (r: bool)
        ensures
            r == self.spec_is_wanxiang(),
    {
        match self {
            Schema::Ice | Schema::Frost | Schema::Mint => false,
            _ => true,
        }
    }

    /// Whether the scheme has a dictionary to update on its own.
    pub fn has_separate_dict(&self) -> (r: bool)
        ensures
            r == self.spec_has_separate_dict(),
    {
        match self {
            Schema::Frost | Schema::Mint => false,
            _ => true,
        }
    }

    /// Whether the grammar model can be patched into the scheme; every
    /// scheme accepts the `grammar/language_model` patch.
    pub fn supports_model_patch(&self) -> (r: bool)
        ensures
            r,
    {
        true
    }

    /// The Rime schema id.
    pub fn schema_id(&self) -> (r: &'static str)
        ensures
            r@ == self.spec_schema_id(),
    {
        match self {
            Schema::WanxiangBase => "wanxiang",
            Schema::Ice => "rime_ice",
            Schema::Frost => "rime_frost",
            Schema::Mint => "rime_mint",
            _ => "wanxiang_pro",
        }
    }
}

/// Every scheme stands in the menu at its position.
pub proof fn lemma_schema_positions(s: Schema)
    ensures
        0 <= spec_schema_position(s) < spec_all_schemas().len(),
        spec_all_schemas()[spec_schema_position(s)] == s,
{
}

/// The name of the scheme's patch file, `<schema id>.custom.yaml`.
pub fn patch_file_name(schema: &Schema) -> (r: String)
    ensures
        r@ == schema.spec_schema_id() + ".custom.yaml"@,
{
    let mut s = schema.schema_id().to_string();
    s.append(".custom.yaml");
    s
}

} // verus!
