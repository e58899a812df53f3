//! The built-in polyphonic characters and the basic readings.
use vstd::prelude::*;

use crate::g2pw::{Polyphone, PolyphoneView, RuleView};

verus! {

/// A context rule: inside `word` the reading is the one at `reading_index`.
pub open spec fn rule(word: &str, reading_index: nat, description: &str) -> RuleView {
    RuleView { word: word@, reading_index, description: description@ }
}

/// The readings and rules of `行`.
pub open spec fn xing_view() -> PolyphoneView {
    PolyphoneView {
        char: '行',
        readings: seq!["xíng"@, "háng"@, "hàng"@, "héng"@],
        rules: seq![
            rule("行走", 0, "行走"),
            rule("行为", 0, "行为"),
            rule("行动", 0, "行动"),
            rule("行李", 0, "行李"),
            rule("行踪", 0, "行踪"),
            rule("银行", 1, "银行"),
            rule("行列", 1, "行列"),
            rule("行业", 1, "行业"),
            rule("行情", 1, "行情"),
            rule("行家", 1, "行家"),
            rule("内行", 1, "内行"),
            rule("外行", 1, "外行"),
            rule("各行", 1, "各行各业"),
            rule("行道", 2, "行道树"),
            rule("道行", 3, "道行（修行功夫）"),
        ],
    }
}

fn xing() -> (r: Polyphone)
    ensures
        r@ == xing_view(),
{
    let mut readings: Vec<String> = Vec::new();
    readings.push("xíng".to_owned());
    readings.push("háng".to_owned());
    readings.push("hàng".to_owned());
    readings.push("héng".to_owned());
    let mut p = Polyphone::new('行', readings);
    assert(p@.readings == xing_view().readings);
    p.add_rule("行走", 0, "行走");
    p.add_rule("行为", 0, "行为");
    p.add_rule("行动", 0, "行动");
    p.add_rule("行李", 0, "行李");
    p.add_rule("行踪", 0, "行踪");
    p.add_rule("银行", 1, "银行");
    p.add_rule("行列", 1, "行列");
    p.add_rule("行业", 1, "行业");
    p.add_rule("行情", 1, "行情");
    p.add_rule("行家", 1, "行家");
    p.add_rule("内行", 1, "内行");
    p.add_rule("外行", 1, "外行");
    p.add_rule("各行", 1, "各行各业");
    p.add_rule("行道", 2, "行道树");
    p.add_rule("道行", 3, "道行（修行功夫）");
    p
}

/// The readings and rules of `长`.
pub open spec fn chang_view() -> PolyphoneView {
    PolyphoneView {
        char: '长',
        readings: seq!["cháng"@, "zhǎng"@],
        rules: seq![
            rule("长短", 0, "长短"),
            rule("长久", 0, "长久"),
            rule("长期", 0, "长期"),
            rule("长度", 0, "长度"),
            rule("长时间", 0, "长时间"),
            rule("长大", 1, "长大"),
            rule("生长", 1, "生长"),
            rule("成长", 1, "成长"),
            rule("长辈", 1, "长辈"),
            rule("长官", 1, "长官"),
            rule("首长", 1, "首长"),
            rule("校长", 1, "校长"),
        ],
    }
}

fn chang() -> (r: Polyphone)
    ensures
        r@ == chang_view(),
{
    let mut readings: Vec<String> = Vec::new();
    readings.push("cháng".to_owned());
    readings.push("zhǎng".to_owned());
    let mut p = Polyphone::new('长', readings);
    assert(p@.readings == chang_view().readings);
    p.add_rule("长短", 0, "长短");
    p.add_rule("长久", 0, "长久");
    p.add_rule("长期", 0, "长期");
    p.add_rule("长度", 0, "长度");
    p.add_rule("长时间", 0, "长时间");
    p.add_rule("长大", 1, "长大");
    p.add_rule("生长", 1, "生长");
    p.add_rule("成长", 1, "成长");
    p.add_rule("长辈", 1, "长辈");
    p.add_rule("长官", 1, "长官");
    p.add_rule("首长", 1, "首长");
    p.add_rule("校长", 1, "校长");
    p
}

/// The readings and rules of `重`.
pub open spec fn zhong_heavy_view() -> PolyphoneView {
    PolyphoneView {
        char: '重',
        readings: seq!["zhòng"@, "chóng"@],
        rules: seq![
            rule("重要", 0, "重要"),
            rule("重量", 0, "重量"),
            rule("重大", 0, "重大"),
            rule("重点", 0, "重点"),
            rule("严重", 0, "严重"),
            rule("重复", 1, "重复"),
            rule("重写", 1, "重写"),
            rule("重建", 1, "重建"),
            rule("重来", 1, "重来"),
            rule("重申", 1, "重申"),
        ],
    }
}

fn zhong_heavy() -> (r: Polyphone)
    ensures
        r@ == zhong_heavy_view(),
{
    let mut readings: Vec<String> = Vec::new();
    readings.push("zhòng".to_owned());
    readings.push("chóng".to_owned());
    let mut p = Polyphone::new('重', readings);
    assert(p@.readings == zhong_heavy_view().readings);
    p.add_rule("重要", 0, "重要");
    p.add_rule("重量", 0, "重量");
    p.add_rule("重大", 0, "重大");
    p.add_rule("重点", 0, "重点");
    p.add_rule("严重", 0, "严重");
    p.add_rule("重复", 1, "重复");
    p.add_rule("重写", 1, "重写");
    p.add_rule("重建", 1, "重建");
    p.add_rule("重来", 1, "重来");
    p.add_rule("重申", 1, "重申");
    p
}

/// The readings and rules of `发`.
pub open spec fn fa_view() -> PolyphoneView {
    PolyphoneView {
        char: '发',
        readings: seq!["fā"@, "fà"@],
        rules: seq![
            rule("发现", 0, "发现"),
            rule("发生", 0, "发生"),
            rule("发展", 0, "发展"),
            rule("发布", 0, "发布"),
            rule("发出", 0, "发出"),
            rule("头发", 1, "头发"),
            rule("毛发", 1, "毛发"),
            rule("理发", 1, "理发"),
            rule("发型", 1, "发型"),
        ],
    }
}

fn fa() -> (r: Polyphone)
    ensures
        r@ == fa_view(),
{
    let mut readings: Vec<String> = Vec::new();
    readings.push("fā".to_owned());
    readings.push("fà".to_owned());
    let mut p = Polyphone::new('发', readings);
    assert(p@.readings == fa_view().readings);
    p.add_rule("发现", 0, "发现");
    p.add_rule("发生", 0, "发生");
    p.add_rule("发展", 0, "发展");
    p.add_rule("发布", 0, "发布");
    p.add_rule("发出", 0, "发出");
    p.add_rule("头发", 1, "头发");
    p.add_rule("毛发", 1, "毛发");
    p.add_rule("理发", 1, "理发");
    p.add_rule("发型", 1, "发型");
    p
}

/// The readings and rules of `了`.
pub open spec fn liao_view() -> PolyphoneView {
    PolyphoneView {
        char: '了',
        readings: seq!["le"@, "liǎo"@],
        rules: seq![
            rule("了解", 1, "了解"),
            rule("了结", 1, "了结"),
            rule("了解", 1, "了解"),
            rule("一目了然", 1, "一目了然"),
            rule("不了", 1, "不了（不可能）"),
        ],
    }
}

fn liao() -> (r: Polyphone)
    ensures
        r@ == liao_view(),
{
    let mut readings: Vec<String> = Vec::new();
    readings.push("le".to_owned());
    readings.push("liǎo".to_owned());
    let mut p = Polyphone::new('了', readings);
    assert(p@.readings == liao_view().readings);
    p.add_rule("了解", 1, "了解");
    p.add_rule("了结", 1, "了结");
    p.add_rule("了解", 1, "了解");
    p.add_rule("一目了然", 1, "一目了然");
    p.add_rule("不了", 1, "不了（不可能）");
    p
}

/// The readings and rules of `着`.
pub open spec fn zhuo_view() -> PolyphoneView {
    PolyphoneView {
        char: '着',
        readings: seq!["zhe"@, "zhuó"@, "zháo"@, "zhāo"@],
        rules: seq![
            rule("穿着", 1, "穿着"),
            rule("着陆", 1, "着陆"),
            rule("着急", 2, "着急"),
            rule("着火", 2, "着火"),
            rule("着凉", 2, "着凉"),
        ],
    }
}

fn zhuo() -> (r: Polyphone)
    ensures
        r@ == zhuo_view(),
{
    let mut readings: Vec<String> = Vec::new();
    readings.push("zhe".to_owned());
    readings.push("zhuó".to_owned());
    readings.push("zháo".to_owned());
    readings.push("zhāo".to_owned());
    let mut p = Polyphone::new('着', readings);
    assert(p@.readings == zhuo_view().readings);
    p.add_rule("穿着", 1, "穿着");
    p.add_rule("着陆", 1, "着陆");
    p.add_rule("着急", 2, "着急");
    p.add_rule("着火", 2, "着火");
    p.add_rule("着凉", 2, "着凉");
    p
}

/// The readings and rules of `得`.
pub open spec fn de_view() -> PolyphoneView {
    PolyphoneView {
        char: '得',
        readings: seq!["dé"@, "děi"@, "de"@],
        rules: seq![
            rule("得到", 0, "得到"),
            rule("得分", 0, "得分"),
            rule("获得", 0, "获得"),
            rule("取得", 0, "取得"),
        ],
    }
}

fn de() -> (r: Polyphone)
    ensures
        r@ == de_view(),
{
    let mut readings: Vec<String> = Vec::new();
    readings.push("dé".to_owned());
    readings.push("děi".to_owned());
    readings.push("de".to_owned());
    let mut p = Polyphone::new('得', readings);
    assert(p@.readings == de_view().readings);
    p.add_rule("得到", 0, "得到");
    p.add_rule("得分", 0, "得分");
    p.add_rule("获得", 0, "获得");
    p.add_rule("取得", 0, "取得");
    p
}

/// The readings and rules of `地`.
pub open spec fn di_view() -> PolyphoneView {
    PolyphoneView {
        char: '地',
        readings: seq!["dì"@, "de"@],
        rules: seq![
            rule("地方", 0, "地方"),
            rule("地球", 0, "地球"),
            rule("地面", 0, "地面"),
            rule("地区", 0, "地区"),
            rule("地址", 0, "地址"),
        ],
    }
}

fn di() -> (r: Polyphone)
    ensures
        r@ == di_view(),
{
    let mut readings: Vec<String> = Vec::new();
    readings.push("dì".to_owned());
    readings.push("de".to_owned());
    let mut p = Polyphone::new('地', readings);
    assert(p@.readings == di_view().readings);
    p.add_rule("地方", 0, "地方");
    p.add_rule("地球", 0, "地球");
    p.add_rule("地面", 0, "地面");
    p.add_rule("地区", 0, "地区");
    p.add_rule("地址", 0, "地址");
    p
}

/// The readings and rules of `乐`.
pub open spec fn le_view() -> PolyphoneView {
    PolyphoneView {
        char: '乐',
        readings: seq!["lè"@, "yuè"@],
        rules: seq![
            rule("快乐", 0, "快乐"),
            rule("乐意", 0, "乐意"),
            rule("乐观", 0, "乐观"),
            rule("乐趣", 0, "乐趣"),
            rule("音乐", 1, "音乐"),
            rule("乐器", 1, "乐器"),
            rule("乐章", 1, "乐章"),
        ],
    }
}

fn le() -> (r: Polyphone)
    ensures
        r@ == le_view(),
{
    let mut readings: Vec<String> = Vec::new();
    readings.push("lè".to_owned());
    readings.push("yuè".to_owned());
    let mut p = Polyphone::new('乐', readings);
    assert(p@.readings == le_view().readings);
    p.add_rule("快乐", 0, "快乐");
    p.add_rule("乐意", 0, "乐意");
    p.add_rule("乐观", 0, "乐观");
    p.add_rule("乐趣", 0, "乐趣");
    p.add_rule("音乐", 1, "音乐");
    p.add_rule("乐器", 1, "乐器");
    p.add_rule("乐章", 1, "乐章");
    p
}

/// The readings and rules of `和`.
pub open spec fn he_view() -> PolyphoneView {
    PolyphoneView {
        char: '和',
        readings: seq!["hé"@, "hè"@, "huó"@, "huò"@, "hú"@],
        rules: seq![
            rule("和平", 0, "和平"),
            rule("温和", 0, "温和"),
            rule("和谐", 0, "和谐"),
            rule("和蔼", 0, "和蔼"),
            rule("附和", 1, "附和"),
            rule("和面", 2, "和面"),
            rule("和稀泥", 3, "和稀泥"),
        ],
    }
}

fn he() -> (r: Polyphone)
    ensures
        r@ == he_view(),
{
    let mut readings: Vec<String> = Vec::new();
    readings.push("hé".to_owned());
    readings.push("hè".to_owned());
    readings.push("huó".to_owned());
    readings.push("huò".to_owned());
    readings.push("hú".to_owned());
    let mut p = Polyphone::new('和', readings);
    assert(p@.readings == he_view().readings);
    p.add_rule("和平", 0, "和平");
    p.add_rule("温和", 0, "温和");
    p.add_rule("和谐", 0, "和谐");
    p.add_rule("和蔼", 0, "和蔼");
    p.add_rule("附和", 1, "附和");
    p.add_rule("和面", 2, "和面");
    p.add_rule("和稀泥", 3, "和稀泥");
    p
}

/// The readings and rules of `为`.
pub open spec fn wei_view() -> PolyphoneView {
    PolyphoneView {
        char: '为',
        readings: seq!["wéi"@, "wèi"@],
        rules: seq![
            rule("作为", 0, "作为"),
            rule("行为", 0, "行为"),
            rule("成为", 0, "成为"),
            rule("因为", 1, "因为"),
            rule("为了", 1, "为了"),
            rule("为什么", 1, "为什么"),
        ],
    }
}

fn wei() -> (r: Polyphone)
    ensures
        r@ == wei_view(),
{
    let mut readings: Vec<String> = Vec::new();
    readings.push("wéi".to_owned());
    readings.push("wèi".to_owned());
    let mut p = Polyphone::new('为', readings);
    assert(p@.readings == wei_view().readings);
    p.add_rule("作为", 0, "作为");
    p.add_rule("行为", 0, "行为");
    p.add_rule("成为", 0, "成为");
    p.add_rule("因为", 1, "因为");
    p.add_rule("为了", 1, "为了");
    p.add_rule("为什么", 1, "为什么");
    p
}

/// The readings and rules of `中`.
pub open spec fn zhong_middle_view() -> PolyphoneView {
    PolyphoneView {
        char: '中',
        readings: seq!["zhōng"@, "zhòng"@],
        rules: seq![
            rule("中间", 0, "中间"),
            rule("中国", 0, "中国"),
            rule("中心", 0, "中心"),
            rule("中央", 0, "中央"),
            rule("命中", 1, "命中"),
            rule("中暑", 1, "中暑"),
            rule("中毒", 1, "中毒"),
        ],
    }
}

fn zhong_middle() -> (r: Polyphone)
    ensures
        r@ == zhong_middle_view(),
{
    let mut readings: Vec<String> = Vec::new();
    readings.push("zhōng".to_owned());
    readings.push("zhòng".to_owned());
    let mut p = Polyphone::new('中', readings);
    assert(p@.readings == zhong_middle_view().readings);
    p.add_rule("中间", 0, "中间");
    p.add_rule("中国", 0, "中国");
    p.add_rule("中心", 0, "中心");
    p.add_rule("中央", 0, "中央");
    p.add_rule("命中", 1, "命中");
    p.add_rule("中暑", 1, "中暑");
    p.add_rule("中毒", 1, "中毒");
    p
}

/// The readings and rules of `种`.
pub open spec fn zhong_seed_view() -> PolyphoneView {
    PolyphoneView {
        char: '种',
        readings: seq!["zhǒng"@, "zhòng"@, "chóng"@],
        rules: seq![
            rule("种子", 0, "种子"),
            rule("种类", 0, "种类"),
            rule("品种", 0, "品种"),
            rule("各种", 0, "各种"),
            rule("种地", 1, "种地"),
            rule("种植", 1, "种植"),
        ],
    }
}

fn zhong_seed() -> (r: Polyphone)
    ensures
        r@ == zhong_seed_view(),
{
    let mut readings: Vec<String> = Vec::new();
    readings.push("zhǒng".to_owned());
    readings.push("zhòng".to_owned());
    readings.push("chóng".to_owned());
    let mut p = Polyphone::new('种', readings);
    assert(p@.readings == zhong_seed_view().readings);
    p.add_rule("种子", 0, "种子");
    p.add_rule("种类", 0, "种类");
    p.add_rule("品种", 0, "品种");
    p.add_rule("各种", 0, "各种");
    p.add_rule("种地", 1, "种地");
    p.add_rule("种植", 1, "种植");
    p
}

/// The built-in entries, in the order in which they are added.
pub open spec fn builtin_entries() -> Seq<PolyphoneView> {
    seq![
        xing_view(),
        chang_view(),
        zhong_heavy_view(),
        fa_view(),
        liao_view(),
        zhuo_view(),
        de_view(),
        di_view(),
        le_view(),
        he_view(),
        wei_view(),
        zhong_middle_view(),
        zhong_seed_view(),
    ]
}

/// Inside `word` the character has the reading `reading`, as the rule at `i` says.
pub open spec fn reads(
    p: PolyphoneView,
    i: int,
    word: Seq<char>,
    reading: Seq<char>,
    description: Seq<char>,
) -> bool {
    &&& 0 <= i < p.rules.len()
    &&& p.rules[i].word == word
    &&& 0 <= p.rules[i].reading_index < p.readings.len()
    &&& p.readings[p.rules[i].reading_index as int] == reading
    &&& p.rules[i].description == description
}

/// How the built-in characters are read: without context, and inside each of the words.
pub proof fn law_builtin_words()
    ensures
        builtin_entries().len() == 13,
        ({
            let e = builtin_entries()[0];
            &&& e.char == '行' && e.rules.len() == 15
            &&& e.readings == seq!["xíng"@, "háng"@, "hàng"@, "héng"@]
            &&& reads(e, 0, "行走"@, "xíng"@, "行走"@)
            &&& reads(e, 1, "行为"@, "xíng"@, "行为"@)
            &&& reads(e, 2, "行动"@, "xíng"@, "行动"@)
            &&& reads(e, 3, "行李"@, "xíng"@, "行李"@)
            &&& reads(e, 4, "行踪"@, "xíng"@, "行踪"@)
            &&& reads(e, 5, "银行"@, "háng"@, "银行"@)
            &&& reads(e, 6, "行列"@, "háng"@, "行列"@)
            &&& reads(e, 7, "行业"@, "háng"@, "行业"@)
            &&& reads(e, 8, "行情"@, "háng"@, "行情"@)
            &&& reads(e, 9, "行家"@, "háng"@, "行家"@)
            &&& reads(e, 10, "内行"@, "háng"@, "内行"@)
            &&& reads(e, 11, "外行"@, "háng"@, "外行"@)
            &&& reads(e, 12, "各行"@, "háng"@, "各行各业"@)
            &&& reads(e, 13, "行道"@, "hàng"@, "行道树"@)
            &&& reads(e, 14, "道行"@, "héng"@, "道行（修行功夫）"@)
        }),
        ({
            let e = builtin_entries()[1];
            &&& e.char == '长' && e.rules.len() == 12
            &&& e.readings == seq!["cháng"@, "zhǎng"@]
            &&& reads(e, 0, "长短"@, "cháng"@, "长短"@)
            &&& reads(e, 1, "长久"@, "cháng"@, "长久"@)
            &&& reads(e, 2, "长期"@, "cháng"@, "长期"@)
            &&& reads(e, 3, "长度"@, "cháng"@, "长度"@)
            &&& reads(e, 4, "长时间"@, "cháng"@, "长时间"@)
            &&& reads(e, 5, "长大"@, "zhǎng"@, "长大"@)
            &&& reads(e, 6, "生长"@, "zhǎng"@, "生长"@)
            &&& reads(e, 7, "成长"@, "zhǎng"@, "成长"@)
            &&& reads(e, 8, "长辈"@, "zhǎng"@, "长辈"@)
            &&& reads(e, 9, "长官"@, "zhǎng"@, "长官"@)
            &&& reads(e, 10, "首长"@, "zhǎng"@, "首长"@)
            &&& reads(e, 11, "校长"@, "zhǎng"@, "校长"@)
        }),
        ({
            let e = builtin_entries()[2];
            &&& e.char == '重' && e.rules.len() == 10
            &&& e.readings == seq!["zhòng"@, "chóng"@]
            &&& reads(e, 0, "重要"@, "zhòng"@, "重要"@)
            &&& reads(e, 1, "重量"@, "zhòng"@, "重量"@)
            &&& reads(e, 2, "重大"@, "zhòng"@, "重大"@)
            &&& reads(e, 3, "重点"@, "zhòng"@, "重点"@)
            &&& reads(e, 4, "严重"@, "zhòng"@, "严重"@)
            &&& reads(e, 5, "重复"@, "chóng"@, "重复"@)
            &&& reads(e, 6, "重写"@, "chóng"@, "重写"@)
            &&& reads(e, 7, "重建"@, "chóng"@, "重建"@)
            &&& reads(e, 8, "重来"@, "chóng"@, "重来"@)
            &&& reads(e, 9, "重申"@, "chóng"@, "重申"@)
        }),
        ({
            let e = builtin_entries()[3];
            &&& e.char == '发' && e.rules.len() == 9
            &&& e.readings == seq!["fā"@, "fà"@]
            &&& reads(e, 0, "发现"@, "fā"@, "发现"@)
            &&& reads(e, 1, "发生"@, "fā"@, "发生"@)
            &&& reads(e, 2, "发展"@, "fā"@, "发展"@)
            &&& reads(e, 3, "发布"@, "fā"@, "发布"@)
            &&& reads(e, 4, "发出"@, "fā"@, "发出"@)
            &&& reads(e, 5, "头发"@, "fà"@, "头发"@)
            &&& reads(e, 6, "毛发"@, "fà"@, "毛发"@)
            &&& reads(e, 7, "理发"@, "fà"@, "理发"@)
            &&& reads(e, 8, "发型"@, "fà"@, "发型"@)
        }),
        ({
            let e = builtin_entries()[4];
            &&& e.char == '了' && e.rules.len() == 5
            &&& e.readings == seq!["le"@, "liǎo"@]
            &&& reads(e, 0, "了解"@, "liǎo"@, "了解"@)
            &&& reads(e, 1, "了结"@, "liǎo"@, "了结"@)
            &&& reads(e, 2, "了解"@, "liǎo"@, "了解"@)
            &&& reads(e, 3, "一目了然"@, "liǎo"@, "一目了然"@)
            &&& reads(e, 4, "不了"@, "liǎo"@, "不了（不可能）"@)
        }),
        ({
            let e = builtin_entries()[5];
            &&& e.char == '着' && e.rules.len() == 5
            &&& e.readings == seq!["zhe"@, "zhuó"@, "zháo"@, "zhāo"@]
            &&& reads(e, 0, "穿着"@, "zhuó"@, "穿着"@)
            &&& reads(e, 1, "着陆"@, "zhuó"@, "着陆"@)
            &&& reads(e, 2, "着急"@, "zháo"@, "着急"@)
            &&& reads(e, 3, "着火"@, "zháo"@, "着火"@)
            &&& reads(e, 4, "着凉"@, "zháo"@, "着凉"@)
        }),
        ({
            let e = builtin_entries()[6];
            &&& e.char == '得' && e.rules.len() == 4
            &&& e.readings == seq!["dé"@, "děi"@, "de"@]
            &&& reads(e, 0, "得到"@, "dé"@, "得到"@)
            &&& reads(e, 1, "得分"@, "dé"@, "得分"@)
            &&& reads(e, 2, "获得"@, "dé"@, "获得"@)
            &&& reads(e, 3, "取得"@, "dé"@, "取得"@)
        }),
        ({
            let e = builtin_entries()[7];
            &&& e.char == '地' && e.rules.len() == 5
            &&& e.readings == seq!["dì"@, "de"@]
            &&& reads(e, 0, "地方"@, "dì"@, "地方"@)
            &&& reads(e, 1, "地球"@, "dì"@, "地球"@)
            &&& reads(e, 2, "地面"@, "dì"@, "地面"@)
            &&& reads(e, 3, "地区"@, "dì"@, "地区"@)
            &&& reads(e, 4, "地址"@, "dì"@, "地址"@)
        }),
        ({
            let e = builtin_entries()[8];
            &&& e.char == '乐' && e.rules.len() == 7
            &&& e.readings == seq!["lè"@, "yuè"@]
            &&& reads(e, 0, "快乐"@, "lè"@, "快乐"@)
            &&& reads(e, 1, "乐意"@, "lè"@, "乐意"@)
            &&& reads(e, 2, "乐观"@, "lè"@, "乐观"@)
            &&& reads(e, 3, "乐趣"@, "lè"@, "乐趣"@)
            &&& reads(e, 4, "音乐"@, "yuè"@, "音乐"@)
            &&& reads(e, 5, "乐器"@, "yuè"@, "乐器"@)
            &&& reads(e, 6, "乐章"@, "yuè"@, "乐章"@)
        }),
        ({
            let e = builtin_entries()[9];
            &&& e.char == '和' && e.rules.len() == 7
            &&& e.readings == seq!["hé"@, "hè"@, "huó"@, "huò"@, "hú"@]
            &&& reads(e, 0, "和平"@, "hé"@, "和平"@)
            &&& reads(e, 1, "温和"@, "hé"@, "温和"@)
            &&& reads(e, 2, "和谐"@, "hé"@, "和谐"@)
            &&& reads(e, 3, "和蔼"@, "hé"@, "和蔼"@)
            &&& reads(e, 4, "附和"@, "hè"@, "附和"@)
            &&& reads(e, 5, "和面"@, "huó"@, "和面"@)
            &&& reads(e, 6, "和稀泥"@, "huò"@, "和稀泥"@)
        }),
        ({
            let e = builtin_entries()[10];
            &&& e.char == '为' && e.rules.len() == 6
            &&& e.readings == seq!["wéi"@, "wèi"@]
            &&& reads(e, 0, "作为"@, "wéi"@, "作为"@)
            &&& reads(e, 1, "行为"@, "wéi"@, "行为"@)
            &&& reads(e, 2, "成为"@, "wéi"@, "成为"@)
            &&& reads(e, 3, "因为"@, "wèi"@, "因为"@)
            &&& reads(e, 4, "为了"@, "wèi"@, "为了"@)
            &&& reads(e, 5, "为什么"@, "wèi"@, "为什么"@)
        }),
        ({
            let e = builtin_entries()[11];
            &&& e.char == '中' && e.rules.len() == 7
            &&& e.readings == seq!["zhōng"@, "zhòng"@]
            &&& reads(e, 0, "中间"@, "zhōng"@, "中间"@)
            &&& reads(e, 1, "中国"@, "zhōng"@, "中国"@)
            &&& reads(e, 2, "中心"@, "zhōng"@, "中心"@)
            &&& reads(e, 3, "中央"@, "zhōng"@, "中央"@)
            &&& reads(e, 4, "命中"@, "zhòng"@, "命中"@)
            &&& reads(e, 5, "中暑"@, "zhòng"@, "中暑"@)
            &&& reads(e, 6, "中毒"@, "zhòng"@, "中毒"@)
        }),
        ({
            let e = builtin_entries()[12];
            &&& e.char == '种' && e.rules.len() == 6
            &&& e.readings == seq!["zhǒng"@, "zhòng"@, "chóng"@]
            &&& reads(e, 0, "种子"@, "zhǒng"@, "种子"@)
            &&& reads(e, 1, "种类"@, "zhǒng"@, "种类"@)
            &&& reads(e, 2, "品种"@, "zhǒng"@, "品种"@)
            &&& reads(e, 3, "各种"@, "zhǒng"@, "各种"@)
            &&& reads(e, 4, "种地"@, "zhòng"@, "种地"@)
            &&& reads(e, 5, "种植"@, "zhòng"@, "种植"@)
        }),
{
}

/// The built-in polyphonic characters, as [`builtin_entries`] lists them.
pub fn load_builtin() -> (r: Vec<Polyphone>)
    ensures
        r@.len() == builtin_entries().len(),
        forall|i: int| 0 <= i < r@.len() ==> #[trigger] r@[i]@ == builtin_entries()[i],
{
    let mut out: Vec<Polyphone> = Vec::new();
    out.push(xing());
    out.push(chang());
    out.push(zhong_heavy());
    out.push(fa());
    out.push(liao());
    out.push(zhuo());
    out.push(de());
    out.push(di());
    out.push(le());
    out.push(he());
    out.push(wei());
    out.push(zhong_middle());
    out.push(zhong_seed());
    out
}

/// The basic reading of a common character.
pub open spec fn basic_reading(c: char) -> Option<Seq<char>> {
    match c {
        '一' => Some("yī"@),
        '二' => Some("èr"@),
        '三' => Some("sān"@),
        '四' => Some("sì"@),
        '五' => Some("wǔ"@),
        '六' => Some("liù"@),
        '七' => Some("qī"@),
        '八' => Some("bā"@),
        '九' => Some("jiǔ"@),
        '十' => Some("shí"@),
        '百' => Some("bǎi"@),
        '千' => Some("qiān"@),
        '万' => Some("wàn"@),
        '亿' => Some("yì"@),
        '零' => Some("líng"@),
        '你' => Some("nǐ"@),
        '好' => Some("hǎo"@),
        '世' => Some("shì"@),
        '界' => Some("jiè"@),
        '中' => Some("zhōng"@),
        '国' => Some("guó"@),
        '人' => Some("rén"@),
        '大' => Some("dà"@),
        '小' => Some("xiǎo"@),
        '多' => Some("duō"@),
        '少' => Some("shǎo"@),
        '上' => Some("shàng"@),
        '下' => Some("xià"@),
        '左' => Some("zuǒ"@),
        '右' => Some("yòu"@),
        '前' => Some("qián"@),
        '后' => Some("hòu"@),
        '里' => Some("lǐ"@),
        '外' => Some("wài"@),
        '内' => Some("nèi"@),
        '东' => Some("dōng"@),
        '西' => Some("xī"@),
        '南' => Some("nán"@),
        '北' => Some("běi"@),
        '天' => Some("tiān"@),
        '地' => Some("dì"@),
        '日' => Some("rì"@),
        '月' => Some("yuè"@),
        '星' => Some("xīng"@),
        '火' => Some("huǒ"@),
        '水' => Some("shuǐ"@),
        '木' => Some("mù"@),
        '金' => Some("jīn"@),
        '土' => Some("tǔ"@),
        '山' => Some("shān"@),
        '河' => Some("hé"@),
        '海' => Some("hǎi"@),
        '风' => Some("fēng"@),
        '雨' => Some("yǔ"@),
        '雪' => Some("xuě"@),
        '云' => Some("yún"@),
        '电' => Some("diàn"@),
        '光' => Some("guāng"@),
        '影' => Some("yǐng"@),
        '走' => Some("zǒu"@),
        '跑' => Some("pǎo"@),
        '飞' => Some("fēi"@),
        '游' => Some("yóu"@),
        '看' => Some("kàn"@),
        '听' => Some("tīng"@),
        '说' => Some("shuō"@),
        '读' => Some("dú"@),
        '写' => Some("xiě"@),
        '吃' => Some("chī"@),
        '喝' => Some("hē"@),
        '睡' => Some("shuì"@),
        '坐' => Some("zuò"@),
        '站' => Some("zhàn"@),
        '打' => Some("dǎ"@),
        '拿' => Some("ná"@),
        '我' => Some("wǒ"@),
        '他' => Some("tā"@),
        '她' => Some("tā"@),
        '它' => Some("tā"@),
        '们' => Some("men"@),
        '的' => Some("de"@),
        '是' => Some("shì"@),
        '在' => Some("zài"@),
        '有' => Some("yǒu"@),
        '无' => Some("wú"@),
        '不' => Some("bù"@),
        '也' => Some("yě"@),
        '都' => Some("dōu"@),
        '就' => Some("jiù"@),
        '还' => Some("hái"@),
        '只' => Some("zhǐ"@),
        '要' => Some("yào"@),
        '会' => Some("huì"@),
        '能' => Some("néng"@),
        '可' => Some("kě"@),
        '以' => Some("yǐ"@),
        '对' => Some("duì"@),
        '错' => Some("cuò"@),
        '年' => Some("nián"@),
        '时' => Some("shí"@),
        '分' => Some("fēn"@),
        '秒' => Some("miǎo"@),
        '周' => Some("zhōu"@),
        '红' => Some("hóng"@),
        '绿' => Some("lǜ"@),
        '蓝' => Some("lán"@),
        '黄' => Some("huáng"@),
        '黑' => Some("hēi"@),
        '白' => Some("bái"@),
        '紫' => Some("zǐ"@),
        '灰' => Some("huī"@),
        '车' => Some("chē"@),
        '船' => Some("chuán"@),
        '机' => Some("jī"@),
        '票' => Some("piào"@),
        '房' => Some("fáng"@),
        '门' => Some("mén"@),
        '窗' => Some("chuāng"@),
        '桥' => Some("qiáo"@),
        '饭' => Some("fàn"@),
        '菜' => Some("cài"@),
        '茶' => Some("chá"@),
        '酒' => Some("jiǔ"@),
        '米' => Some("mǐ"@),
        '面' => Some("miàn"@),
        '油' => Some("yóu"@),
        '盐' => Some("yán"@),
        '爱' => Some("ài"@),
        '恨' => Some("hèn"@),
        '喜' => Some("xǐ"@),
        '怒' => Some("nù"@),
        '哀' => Some("āi"@),
        '乐' => Some("lè"@),
        '惊' => Some("jīng"@),
        '怕' => Some("pà"@),
        '学' => Some("xué"@),
        '教' => Some("jiāo"@),
        '书' => Some("shū"@),
        '字' => Some("zì"@),
        '词' => Some("cí"@),
        '句' => Some("jù"@),
        '文' => Some("wén"@),
        '章' => Some("zhāng"@),
        '头' => Some("tóu"@),
        '手' => Some("shǒu"@),
        '脚' => Some("jiǎo"@),
        '眼' => Some("yǎn"@),
        '耳' => Some("ěr"@),
        '口' => Some("kǒu"@),
        '鼻' => Some("bí"@),
        '脸' => Some("liǎn"@),
        '花' => Some("huā"@),
        '草' => Some("cǎo"@),
        '树' => Some("shù"@),
        '叶' => Some("yè"@),
        '果' => Some("guǒ"@),
        '根' => Some("gēn"@),
        '枝' => Some("zhī"@),
        '林' => Some("lín"@),
        '钱' => Some("qián"@),
        '买' => Some("mǎi"@),
        '卖' => Some("mài"@),
        '价' => Some("jià"@),
        '店' => Some("diàn"@),
        '市' => Some("shì"@),
        '场' => Some("chǎng"@),
        '行' => Some("xíng"@),
        _ => None,
    }
}

/// The basic reading of `c`, if the table has it.
pub fn basic_pinyin(c: char) -> (r: Option<&'static str>)
    ensures
        match r {
            Some(p) => basic_reading(c) == Some(p@),
            None => basic_reading(c) is None,
        },
        r is Some <==> {
            ||| c == '一'
            ||| c == '二'
            ||| c == '三'
            ||| c == '四'
            ||| c == '五'
            ||| c == '六'
            ||| c == '七'
            ||| c == '八'
            ||| c == '九'
            ||| c == '十'
            ||| c == '百'
            ||| c == '千'
            ||| c == '万'
            ||| c == '亿'
            ||| c == '零'
            ||| c == '你'
            ||| c == '好'
            ||| c == '世'
            ||| c == '界'
            ||| c == '中'
            ||| c == '国'
            ||| c == '人'
            ||| c == '大'
            ||| c == '小'
            ||| c == '多'
            ||| c == '少'
            ||| c == '上'
            ||| c == '下'
            ||| c == '左'
            ||| c == '右'
            ||| c == '前'
            ||| c == '后'
            ||| c == '里'
            ||| c == '外'
            ||| c == '内'
            ||| c == '东'
            ||| c == '西'
            ||| c == '南'
            ||| c == '北'
            ||| c == '天'
            ||| c == '地'
            ||| c == '日'
            ||| c == '月'
            ||| c == '星'
            ||| c == '火'
            ||| c == '水'
            ||| c == '木'
            ||| c == '金'
            ||| c == '土'
            ||| c == '山'
            ||| c == '河'
            ||| c == '海'
            ||| c == '风'
            ||| c == '雨'
            ||| c == '雪'
            ||| c == '云'
            ||| c == '电'
            ||| c == '光'
            ||| c == '影'
            ||| c == '走'
            ||| c == '跑'
            ||| c == '飞'
            ||| c == '游'
            ||| c == '看'
            ||| c == '听'
            ||| c == '说'
            ||| c == '读'
            ||| c == '写'
            ||| c == '吃'
            ||| c == '喝'
            ||| c == '睡'
            ||| c == '坐'
            ||| c == '站'
            ||| c == '打'
            ||| c == '拿'
            ||| c == '我'
            ||| c == '他'
            ||| c == '她'
            ||| c == '它'
            ||| c == '们'
            ||| c == '的'
            ||| c == '是'
            ||| c == '在'
            ||| c == '有'
            ||| c == '无'
            ||| c == '不'
            ||| c == '也'
            ||| c == '都'
            ||| c == '就'
            ||| c == '还'
            ||| c == '只'
            ||| c == '要'
            ||| c == '会'
            ||| c == '能'
            ||| c == '可'
            ||| c == '以'
            ||| c == '对'
            ||| c == '错'
            ||| c == '年'
            ||| c == '时'
            ||| c == '分'
            ||| c == '秒'
            ||| c == '周'
            ||| c == '红'
            ||| c == '绿'
            ||| c == '蓝'
            ||| c == '黄'
            ||| c == '黑'
            ||| c == '白'
            ||| c == '紫'
            ||| c == '灰'
            ||| c == '车'
            ||| c == '船'
            ||| c == '机'
            ||| c == '票'
            ||| c == '房'
            ||| c == '门'
            ||| c == '窗'
            ||| c == '桥'
            ||| c == '饭'
            ||| c == '菜'
            ||| c == '茶'
            ||| c == '酒'
            ||| c == '米'
            ||| c == '面'
            ||| c == '油'
            ||| c == '盐'
            ||| c == '爱'
            ||| c == '恨'
            ||| c == '喜'
            ||| c == '怒'
            ||| c == '哀'
            ||| c == '乐'
            ||| c == '惊'
            ||| c == '怕'
            ||| c == '学'
            ||| c == '教'
            ||| c == '书'
            ||| c == '字'
            ||| c == '词'
            ||| c == '句'
            ||| c == '文'
            ||| c == '章'
            ||| c == '头'
            ||| c == '手'
            ||| c == '脚'
            ||| c == '眼'
            ||| c == '耳'
            ||| c == '口'
            ||| c == '鼻'
            ||| c == '脸'
            ||| c == '花'
            ||| c == '草'
            ||| c == '树'
            ||| c == '叶'
            ||| c == '果'
            ||| c == '根'
            ||| c == '枝'
            ||| c == '林'
            ||| c == '钱'
            ||| c == '买'
            ||| c == '卖'
            ||| c == '价'
            ||| c == '店'
            ||| c == '市'
            ||| c == '场'
            ||| c == '行'
        },
        c == '一' ==> r is Some && r->0@ == "yī"@,
        c == '二' ==> r is Some && r->0@ == "èr"@,
        c == '三' ==> r is Some && r->0@ == "sān"@,
        c == '四' ==> r is Some && r->0@ == "sì"@,
        c == '五' ==> r is Some && r->0@ == "wǔ"@,
        c == '六' ==> r is Some && r->0@ == "liù"@,
        c == '七' ==> r is Some && r->0@ == "qī"@,
        c == '八' ==> r is Some && r->0@ == "bā"@,
        c == '九' ==> r is Some && r->0@ == "jiǔ"@,
        c == '十' ==> r is Some && r->0@ == "shí"@,
        c == '百' ==> r is Some && r->0@ == "bǎi"@,
        c == '千' ==> r is Some && r->0@ == "qiān"@,
        c == '万' ==> r is Some && r->0@ == "wàn"@,
        c == '亿' ==> r is Some && r->0@ == "yì"@,
        c == '零' ==> r is Some && r->0@ == "líng"@,
        c == '你' ==> r is Some && r->0@ == "nǐ"@,
        c == '好' ==> r is Some && r->0@ == "hǎo"@,
        c == '世' ==> r is Some && r->0@ == "shì"@,
        c == '界' ==> r is Some && r->0@ == "jiè"@,
        c == '中' ==> r is Some && r->0@ == "zhōng"@,
        c == '国' ==> r is Some && r->0@ == "guó"@,
        c == '人' ==> r is Some && r->0@ == "rén"@,
        c == '大' ==> r is Some && r->0@ == "dà"@,
        c == '小' ==> r is Some && r->0@ == "xiǎo"@,
        c == '多' ==> r is Some && r->0@ == "duō"@,
        c == '少' ==> r is Some && r->0@ == "shǎo"@,
        c == '上' ==> r is Some && r->0@ == "shàng"@,
        c == '下' ==> r is Some && r->0@ == "xià"@,
        c == '左' ==> r is Some && r->0@ == "zuǒ"@,
        c == '右' ==> r is Some && r->0@ == "yòu"@,
        c == '前' ==> r is Some && r->0@ == "qián"@,
        c == '后' ==> r is Some && r->0@ == "hòu"@,
        c == '里' ==> r is Some && r->0@ == "lǐ"@,
        c == '外' ==> r is Some && r->0@ == "wài"@,
        c == '内' ==> r is Some && r->0@ == "nèi"@,
        c == '东' ==> r is Some && r->0@ == "dōng"@,
        c == '西' ==> r is Some && r->0@ == "xī"@,
        c == '南' ==> r is Some && r->0@ == "nán"@,
        c == '北' ==> r is Some && r->0@ == "běi"@,
        c == '天' ==> r is Some && r->0@ == "tiān"@,
        c == '地' ==> r is Some && r->0@ == "dì"@,
        c == '日' ==> r is Some && r->0@ == "rì"@,
        c == '月' ==> r is Some && r->0@ == "yuè"@,
        c == '星' ==> r is Some && r->0@ == "xīng"@,
        c == '火' ==> r is Some && r->0@ == "huǒ"@,
        c == '水' ==> r is Some && r->0@ == "shuǐ"@,
        c == '木' ==> r is Some && r->0@ == "mù"@,
        c == '金' ==> r is Some && r->0@ == "jīn"@,
        c == '土' ==> r is Some && r->0@ == "tǔ"@,
        c == '山' ==> r is Some && r->0@ == "shān"@,
        c == '河' ==> r is Some && r->0@ == "hé"@,
        c == '海' ==> r is Some && r->0@ == "hǎi"@,
        c == '风' ==> r is Some && r->0@ == "fēng"@,
        c == '雨' ==> r is Some && r->0@ == "yǔ"@,
        c == '雪' ==> r is Some && r->0@ == "xuě"@,
        c == '云' ==> r is Some && r->0@ == "yún"@,
        c == '电' ==> r is Some && r->0@ == "diàn"@,
        c == '光' ==> r is Some && r->0@ == "guāng"@,
        c == '影' ==> r is Some && r->0@ == "yǐng"@,
        c == '走' ==> r is Some && r->0@ == "zǒu"@,
        c == '跑' ==> r is Some && r->0@ == "pǎo"@,
        c == '飞' ==> r is Some && r->0@ == "fēi"@,
        c == '游' ==> r is Some && r->0@ == "yóu"@,
        c == '看' ==> r is Some && r->0@ == "kàn"@,
        c == '听' ==> r is Some && r->0@ == "tīng"@,
        c == '说' ==> r is Some && r->0@ == "shuō"@,
        c == '读' ==> r is Some && r->0@ == "dú"@,
        c == '写' ==> r is Some && r->0@ == "xiě"@,
        c == '吃' ==> r is Some && r->0@ == "chī"@,
        c == '喝' ==> r is Some && r->0@ == "hē"@,
        c == '睡' ==> r is Some && r->0@ == "shuì"@,
        c == '坐' ==> r is Some && r->0@ == "zuò"@,
        c == '站' ==> r is Some && r->0@ == "zhàn"@,
        c == '打' ==> r is Some && r->0@ == "dǎ"@,
        c == '拿' ==> r is Some && r->0@ == "ná"@,
        c == '我' ==> r is Some && r->0@ == "wǒ"@,
        c == '他' ==> r is Some && r->0@ == "tā"@,
        c == '她' ==> r is Some && r->0@ == "tā"@,
        c == '它' ==> r is Some && r->0@ == "tā"@,
        c == '们' ==> r is Some && r->0@ == "men"@,
        c == '的' ==> r is Some && r->0@ == "de"@,
        c == '是' ==> r is Some && r->0@ == "shì"@,
        c == '在' ==> r is Some && r->0@ == "zài"@,
        c == '有' ==> r is Some && r->0@ == "yǒu"@,
        c == '无' ==> r is Some && r->0@ == "wú"@,
        c == '不' ==> r is Some && r->0@ == "bù"@,
        c == '也' ==> r is Some && r->0@ == "yě"@,
        c == '都' ==> r is Some && r->0@ == "dōu"@,
        c == '就' ==> r is Some && r->0@ == "jiù"@,
        c == '还' ==> r is Some && r->0@ == "hái"@,
        c == '只' ==> r is Some && r->0@ == "zhǐ"@,
        c == '要' ==> r is Some && r->0@ == "yào"@,
        c == '会' ==> r is Some && r->0@ == "huì"@,
        c == '能' ==> r is Some && r->0@ == "néng"@,
        c == '可' ==> r is Some && r->0@ == "kě"@,
        c == '以' ==> r is Some && r->0@ == "yǐ"@,
        c == '对' ==> r is Some && r->0@ == "duì"@,
        c == '错' ==> r is Some && r->0@ == "cuò"@,
        c == '年' ==> r is Some && r->0@ == "nián"@,
        c == '时' ==> r is Some && r->0@ == "shí"@,
        c == '分' ==> r is Some && r->0@ == "fēn"@,
        c == '秒' ==> r is Some && r->0@ == "miǎo"@,
        c == '周' ==> r is Some && r->0@ == "zhōu"@,
        c == '红' ==> r is Some && r->0@ == "hóng"@,
        c == '绿' ==> r is Some && r->0@ == "lǜ"@,
        c == '蓝' ==> r is Some && r->0@ == "lán"@,
        c == '黄' ==> r is Some && r->0@ == "huáng"@,
        c == '黑' ==> r is Some && r->0@ == "hēi"@,
        c == '白' ==> r is Some && r->0@ == "bái"@,
        c == '紫' ==> r is Some && r->0@ == "zǐ"@,
        c == '灰' ==> r is Some && r->0@ == "huī"@,
        c == '车' ==> r is Some && r->0@ == "chē"@,
        c == '船' ==> r is Some && r->0@ == "chuán"@,
        c == '机' ==> r is Some && r->0@ == "jī"@,
        c == '票' ==> r is Some && r->0@ == "piào"@,
        c == '房' ==> r is Some && r->0@ == "fáng"@,
        c == '门' ==> r is Some && r->0@ == "mén"@,
        c == '窗' ==> r is Some && r->0@ == "chuāng"@,
        c == '桥' ==> r is Some && r->0@ == "qiáo"@,
        c == '饭' ==> r is Some && r->0@ == "fàn"@,
        c == '菜' ==> r is Some && r->0@ == "cài"@,
        c == '茶' ==> r is Some && r->0@ == "chá"@,
        c == '酒' ==> r is Some && r->0@ == "jiǔ"@,
        c == '米' ==> r is Some && r->0@ == "mǐ"@,
        c == '面' ==> r is Some && r->0@ == "miàn"@,
        c == '油' ==> r is Some && r->0@ == "yóu"@,
        c == '盐' ==> r is Some && r->0@ == "yán"@,
        c == '爱' ==> r is Some && r->0@ == "ài"@,
        c == '恨' ==> r is Some && r->0@ == "hèn"@,
        c == '喜' ==> r is Some && r->0@ == "xǐ"@,
        c == '怒' ==> r is Some && r->0@ == "nù"@,
        c == '哀' ==> r is Some && r->0@ == "āi"@,
        c == '乐' ==> r is Some && r->0@ == "lè"@,
        c == '惊' ==> r is Some && r->0@ == "jīng"@,
        c == '怕' ==> r is Some && r->0@ == "pà"@,
        c == '学' ==> r is Some && r->0@ == "xué"@,
        c == '教' ==> r is Some && r->0@ == "jiāo"@,
        c == '书' ==> r is Some && r->0@ == "shū"@,
        c == '字' ==> r is Some && r->0@ == "zì"@,
        c == '词' ==> r is Some && r->0@ == "cí"@,
        c == '句' ==> r is Some && r->0@ == "jù"@,
        c == '文' ==> r is Some && r->0@ == "wén"@,
        c == '章' ==> r is Some && r->0@ == "zhāng"@,
        c == '头' ==> r is Some && r->0@ == "tóu"@,
        c == '手' ==> r is Some && r->0@ == "shǒu"@,
        c == '脚' ==> r is Some && r->0@ == "jiǎo"@,
        c == '眼' ==> r is Some && r->0@ == "yǎn"@,
        c == '耳' ==> r is Some && r->0@ == "ěr"@,
        c == '口' ==> r is Some && r->0@ == "kǒu"@,
        c == '鼻' ==> r is Some && r->0@ == "bí"@,
        c == '脸' ==> r is Some && r->0@ == "liǎn"@,
        c == '花' ==> r is Some && r->0@ == "huā"@,
        c == '草' ==> r is Some && r->0@ == "cǎo"@,
        c == '树' ==> r is Some && r->0@ == "shù"@,
        c == '叶' ==> r is Some && r->0@ == "yè"@,
        c == '果' ==> r is Some && r->0@ == "guǒ"@,
        c == '根' ==> r is Some && r->0@ == "gēn"@,
        c == '枝' ==> r is Some && r->0@ == "zhī"@,
        c == '林' ==> r is Some && r->0@ == "lín"@,
        c == '钱' ==> r is Some && r->0@ == "qián"@,
        c == '买' ==> r is Some && r->0@ == "mǎi"@,
        c == '卖' ==> r is Some && r->0@ == "mài"@,
        c == '价' ==> r is Some && r->0@ == "jià"@,
        c == '店' ==> r is Some && r->0@ == "diàn"@,
        c == '市' ==> r is Some && r->0@ == "shì"@,
        c == '场' ==> r is Some && r->0@ == "chǎng"@,
        c == '行' ==> r is Some && r->0@ == "xíng"@,
{
    match c {
        '一' => Some("yī"),
        '二' => Some("èr"),
        '三' => Some("sān"),
        '四' => Some("sì"),
        '五' => Some("wǔ"),
        '六' => Some("liù"),
        '七' => Some("qī"),
        '八' => Some("bā"),
        '九' => Some("jiǔ"),
        '十' => Some("shí"),
        '百' => Some("bǎi"),
        '千' => Some("qiān"),
        '万' => Some("wàn"),
        '亿' => Some("yì"),
        '零' => Some("líng"),
        '你' => Some("nǐ"),
        '好' => Some("hǎo"),
        '世' => Some("shì"),
        '界' => Some("jiè"),
        '中' => Some("zhōng"),
        '国' => Some("guó"),
        '人' => Some("rén"),
        '大' => Some("dà"),
        '小' => Some("xiǎo"),
        '多' => Some("duō"),
        '少' => Some("shǎo"),
        '上' => Some("shàng"),
        '下' => Some("xià"),
        '左' => Some("zuǒ"),
        '右' => Some("yòu"),
        '前' => Some("qián"),
        '后' => Some("hòu"),
        '里' => Some("lǐ"),
        '外' => Some("wài"),
        '内' => Some("nèi"),
        '东' => Some("dōng"),
        '西' => Some("xī"),
        '南' => Some("nán"),
        '北' => Some("běi"),
        '天' => Some("tiān"),
        '地' => Some("dì"),
        '日' => Some("rì"),
        '月' => Some("yuè"),
        '星' => Some("xīng"),
        '火' => Some("huǒ"),
        '水' => Some("shuǐ"),
        '木' => Some("mù"),
        '金' => Some("jīn"),
        '土' => Some("tǔ"),
        '山' => Some("shān"),
        '河' => Some("hé"),
        '海' => Some("hǎi"),
        '风' => Some("fēng"),
        '雨' => Some("yǔ"),
        '雪' => Some("xuě"),
        '云' => Some("yún"),
        '电' => Some("diàn"),
        '光' => Some("guāng"),
        '影' => Some("yǐng"),
        '走' => Some("zǒu"),
        '跑' => Some("pǎo"),
        '飞' => Some("fēi"),
        '游' => Some("yóu"),
        '看' => Some("kàn"),
        '听' => Some("tīng"),
        '说' => Some("shuō"),
        '读' => Some("dú"),
        '写' => Some("xiě"),
        '吃' => Some("chī"),
        '喝' => Some("hē"),
        '睡' => Some("shuì"),
        '坐' => Some("zuò"),
        '站' => Some("zhàn"),
        '打' => Some("dǎ"),
        '拿' => Some("ná"),
        '我' => Some("wǒ"),
        '他' => Some("tā"),
        '她' => Some("tā"),
        '它' => Some("tā"),
        '们' => Some("men"),
        '的' => Some("de"),
        '是' => Some("shì"),
        '在' => Some("zài"),
        '有' => Some("yǒu"),
        '无' => Some("wú"),
        '不' => Some("bù"),
        '也' => Some("yě"),
        '都' => Some("dōu"),
        '就' => Some("jiù"),
        '还' => Some("hái"),
        '只' => Some("zhǐ"),
        '要' => Some("yào"),
        '会' => Some("huì"),
        '能' => Some("néng"),
        '可' => Some("kě"),
        '以' => Some("yǐ"),
        '对' => Some("duì"),
        '错' => Some("cuò"),
        '年' => Some("nián"),
        '时' => Some("shí"),
        '分' => Some("fēn"),
        '秒' => Some("miǎo"),
        '周' => Some("zhōu"),
        '红' => Some("hóng"),
        '绿' => Some("lǜ"),
        '蓝' => Some("lán"),
        '黄' => Some("huáng"),
        '黑' => Some("hēi"),
        '白' => Some("bái"),
        '紫' => Some("zǐ"),
        '灰' => Some("huī"),
        '车' => Some("chē"),
        '船' => Some("chuán"),
        '机' => Some("jī"),
        '票' => Some("piào"),
        '房' => Some("fáng"),
        '门' => Some("mén"),
        '窗' => Some("chuāng"),
        '桥' => Some("qiáo"),
        '饭' => Some("fàn"),
        '菜' => Some("cài"),
        '茶' => Some("chá"),
        '酒' => Some("jiǔ"),
        '米' => Some("mǐ"),
        '面' => Some("miàn"),
        '油' => Some("yóu"),
        '盐' => Some("yán"),
        '爱' => Some("ài"),
        '恨' => Some("hèn"),
        '喜' => Some("xǐ"),
        '怒' => Some("nù"),
        '哀' => Some("āi"),
        '乐' => Some("lè"),
        '惊' => Some("jīng"),
        '怕' => Some("pà"),
        '学' => Some("xué"),
        '教' => Some("jiāo"),
        '书' => Some("shū"),
        '字' => Some("zì"),
        '词' => Some("cí"),
        '句' => Some("jù"),
        '文' => Some("wén"),
        '章' => Some("zhāng"),
        '头' => Some("tóu"),
        '手' => Some("shǒu"),
        '脚' => Some("jiǎo"),
        '眼' => Some("yǎn"),
        '耳' => Some("ěr"),
        '口' => Some("kǒu"),
        '鼻' => Some("bí"),
        '脸' => Some("liǎn"),
        '花' => Some("huā"),
        '草' => Some("cǎo"),
        '树' => Some("shù"),
        '叶' => Some("yè"),
        '果' => Some("guǒ"),
        '根' => Some("gēn"),
        '枝' => Some("zhī"),
        '林' => Some("lín"),
        '钱' => Some("qián"),
        '买' => Some("mǎi"),
        '卖' => Some("mài"),
        '价' => Some("jià"),
        '店' => Some("diàn"),
        '市' => Some("shì"),
        '场' => Some("chǎng"),
        '行' => Some("xíng"),
        _ => None,
    }
}

} // verus!
