//! A catalogue of common item and block ids, with their display names and categories.
use crate::text::{contains_text, lower_of, lowercase, text_contains};
use vstd::prelude::*;

verus! {

/// An item or block id with its display name.
#[derive(Debug, Clone)]
pub struct MinecraftItem {
    pub id: String,
    pub name: String,
    pub category: ItemCategory,
}

/// The group an item belongs to.
#[derive(Debug, Clone, Copy, PartialEq, Eq, Hash, Structural)]
pub enum ItemCategory {
    Block,
    Item,
    Tool,
    Weapon,
    Armor,
    Food,
    Decoration,
    Redstone,
    Transportation,
    Misc,
}

/// The id, name and category of an item.
pub open spec fn item_view(item: MinecraftItem) -> (Seq<char>, Seq<char>, ItemCategory) {
    (item.id@, item.name@, item.category)
}

/// The views of a list of items.
pub open spec fn item_views(items: Seq<MinecraftItem>) -> Seq<(Seq<char>, Seq<char>, ItemCategory)> {
    items.map_values(|i: MinecraftItem| item_view(i))
}

/// The number of entries in the catalogue.
pub const CATALOGUE_SIZE: usize = 128;

/// The entry at position `i` of the catalogue.
pub open spec fn catalogue_entry(i: usize) -> (Seq<char>, Seq<char>, ItemCategory) {
    match i {
        0 => ("stone"@, "石头"@, ItemCategory::Block),
        1 => ("granite"@, "花岗岩"@, ItemCategory::Block),
        2 => ("polished_granite"@, "磨制花岗岩"@, ItemCategory::Block),
        3 => ("diorite"@, "闪长岩"@, ItemCategory::Block),
        4 => ("polished_diorite"@, "磨制闪长岩"@, ItemCategory::Block),
        5 => ("andesite"@, "安山岩"@, ItemCategory::Block),
        6 => ("polished_andesite"@, "磨制安山岩"@, ItemCategory::Block),
        7 => ("grass_block"@, "草方块"@, ItemCategory::Block),
        8 => ("dirt"@, "泥土"@, ItemCategory::Block),
        9 => ("coarse_dirt"@, "砂土"@, ItemCategory::Block),
        10 => ("podzol"@, "灰化土"@, ItemCategory::Block),
        11 => ("cobblestone"@, "圆石"@, ItemCategory::Block),
        12 => ("oak_planks"@, "橡木木板"@, ItemCategory::Block),
        13 => ("spruce_planks"@, "云杉木板"@, ItemCategory::Block),
        14 => ("birch_planks"@, "白桦木板"@, ItemCategory::Block),
        15 => ("jungle_planks"@, "丛林木板"@, ItemCategory::Block),
        16 => ("acacia_planks"@, "金合欢木板"@, ItemCategory::Block),
        17 => ("dark_oak_planks"@, "深色橡木木板"@, ItemCategory::Block),
        18 => ("crimson_planks"@, "绯红木板"@, ItemCategory::Block),
        19 => ("warped_planks"@, "诡异木板"@, ItemCategory::Block),
        20 => ("bedrock"@, "基岩"@, ItemCategory::Block),
        21 => ("sand"@, "沙子"@, ItemCategory::Block),
        22 => ("red_sand"@, "红沙"@, ItemCategory::Block),
        23 => ("gravel"@, "沙砾"@, ItemCategory::Block),
        24 => ("gold_ore"@, "金矿石"@, ItemCategory::Block),
        25 => ("deepslate_gold_ore"@, "深层金矿石"@, ItemCategory::Block),
        26 => ("iron_ore"@, "铁矿石"@, ItemCategory::Block),
        27 => ("deepslate_iron_ore"@, "深层铁矿石"@, ItemCategory::Block),
        28 => ("coal_ore"@, "煤矿石"@, ItemCategory::Block),
        29 => ("deepslate_coal_ore"@, "深层煤矿石"@, ItemCategory::Block),
        30 => ("oak_log"@, "橡木原木"@, ItemCategory::Block),
        31 => ("spruce_log"@, "云杉原木"@, ItemCategory::Block),
        32 => ("birch_log"@, "白桦原木"@, ItemCategory::Block),
        33 => ("jungle_log"@, "丛林原木"@, ItemCategory::Block),
        34 => ("acacia_log"@, "金合欢原木"@, ItemCategory::Block),
        35 => ("dark_oak_log"@, "深色橡木原木"@, ItemCategory::Block),
        36 => ("glass"@, "玻璃"@, ItemCategory::Block),
        37 => ("lapis_ore"@, "青金石矿石"@, ItemCategory::Block),
        38 => ("deepslate_lapis_ore"@, "深层青金石矿石"@, ItemCategory::Block),
        39 => ("sandstone"@, "砂岩"@, ItemCategory::Block),
        40 => ("wool"@, "白色羊毛"@, ItemCategory::Block),
        41 => ("gold_block"@, "金块"@, ItemCategory::Block),
        42 => ("iron_block"@, "铁块"@, ItemCategory::Block),
        43 => ("diamond_block"@, "钻石块"@, ItemCategory::Block),
        44 => ("emerald_block"@, "绿宝石块"@, ItemCategory::Block),
        45 => ("netherite_block"@, "下界合金块"@, ItemCategory::Block),
        46 => ("wooden_pickaxe"@, "木镐"@, ItemCategory::Tool),
        47 => ("stone_pickaxe"@, "石镐"@, ItemCategory::Tool),
        48 => ("iron_pickaxe"@, "铁镐"@, ItemCategory::Tool),
        49 => ("golden_pickaxe"@, "金镐"@, ItemCategory::Tool),
        50 => ("diamond_pickaxe"@, "钻石镐"@, ItemCategory::Tool),
        51 => ("netherite_pickaxe"@, "下界合金镐"@, ItemCategory::Tool),
        52 => ("wooden_axe"@, "木斧"@, ItemCategory::Tool),
        53 => ("stone_axe"@, "石斧"@, ItemCategory::Tool),
        54 => ("iron_axe"@, "铁斧"@, ItemCategory::Tool),
        55 => ("golden_axe"@, "金斧"@, ItemCategory::Tool),
        56 => ("diamond_axe"@, "钻石斧"@, ItemCategory::Tool),
        57 => ("netherite_axe"@, "下界合金斧"@, ItemCategory::Tool),
        58 => ("wooden_shovel"@, "木锹"@, ItemCategory::Tool),
        59 => ("stone_shovel"@, "石锹"@, ItemCategory::Tool),
        60 => ("iron_shovel"@, "铁锹"@, ItemCategory::Tool),
        61 => ("golden_shovel"@, "金锹"@, ItemCategory::Tool),
        62 => ("diamond_shovel"@, "钻石锹"@, ItemCategory::Tool),
        63 => ("netherite_shovel"@, "下界合金锹"@, ItemCategory::Tool),
        64 => ("wooden_sword"@, "木剑"@, ItemCategory::Weapon),
        65 => ("stone_sword"@, "石剑"@, ItemCategory::Weapon),
        66 => ("iron_sword"@, "铁剑"@, ItemCategory::Weapon),
        67 => ("golden_sword"@, "金剑"@, ItemCategory::Weapon),
        68 => ("diamond_sword"@, "钻石剑"@, ItemCategory::Weapon),
        69 => ("netherite_sword"@, "下界合金剑"@, ItemCategory::Weapon),
        70 => ("bow"@, "弓"@, ItemCategory::Weapon),
        71 => ("crossbow"@, "弩"@, ItemCategory::Weapon),
        72 => ("trident"@, "三叉戟"@, ItemCategory::Weapon),
        73 => ("leather_helmet"@, "皮革帽子"@, ItemCategory::Armor),
        74 => ("leather_chestplate"@, "皮革外套"@, ItemCategory::Armor),
        75 => ("leather_leggings"@, "皮革裤子"@, ItemCategory::Armor),
        76 => ("leather_boots"@, "皮革靴子"@, ItemCategory::Armor),
        77 => ("iron_helmet"@, "铁头盔"@, ItemCategory::Armor),
        78 => ("iron_chestplate"@, "铁胸甲"@, ItemCategory::Armor),
        79 => ("iron_leggings"@, "铁护腿"@, ItemCategory::Armor),
        80 => ("iron_boots"@, "铁靴子"@, ItemCategory::Armor),
        81 => ("diamond_helmet"@, "钻石头盔"@, ItemCategory::Armor),
        82 => ("diamond_chestplate"@, "钻石胸甲"@, ItemCategory::Armor),
        83 => ("diamond_leggings"@, "钻石护腿"@, ItemCategory::Armor),
        84 => ("diamond_boots"@, "钻石靴子"@, ItemCategory::Armor),
        85 => ("netherite_helmet"@, "下界合金头盔"@, ItemCategory::Armor),
        86 => ("netherite_chestplate"@, "下界合金胸甲"@, ItemCategory::Armor),
        87 => ("netherite_leggings"@, "下界合金护腿"@, ItemCategory::Armor),
        88 => ("netherite_boots"@, "下界合金靴子"@, ItemCategory::Armor),
        89 => ("apple"@, "苹果"@, ItemCategory::Food),
        90 => ("golden_apple"@, "金苹果"@, ItemCategory::Food),
        91 => ("bread"@, "面包"@, ItemCategory::Food),
        92 => ("cooked_beef"@, "熟牛肉"@, ItemCategory::Food),
        93 => ("cooked_porkchop"@, "熟猪排"@, ItemCategory::Food),
        94 => ("cooked_chicken"@, "熟鸡肉"@, ItemCategory::Food),
        95 => ("cooked_mutton"@, "熟羊肉"@, ItemCategory::Food),
        96 => ("cooked_rabbit"@, "熟兔肉"@, ItemCategory::Food),
        97 => ("cooked_cod"@, "熟鳕鱼"@, ItemCategory::Food),
        98 => ("cooked_salmon"@, "熟鲑鱼"@, ItemCategory::Food),
        99 => ("coal"@, "煤炭"@, ItemCategory::Item),
        100 => ("charcoal"@, "木炭"@, ItemCategory::Item),
        101 => ("diamond"@, "钻石"@, ItemCategory::Item),
        102 => ("emerald"@, "绿宝石"@, ItemCategory::Item),
        103 => ("iron_ingot"@, "铁锭"@, ItemCategory::Item),
        104 => ("gold_ingot"@, "金锭"@, ItemCategory::Item),
        105 => ("netherite_ingot"@, "下界合金锭"@, ItemCategory::Item),
        106 => ("stick"@, "木棍"@, ItemCategory::Item),
        107 => ("string"@, "线"@, ItemCategory::Item),
        108 => ("feather"@, "羽毛"@, ItemCategory::Item),
        109 => ("gunpowder"@, "火药"@, ItemCategory::Item),
        110 => ("wheat"@, "小麦"@, ItemCategory::Item),
        111 => ("wheat_seeds"@, "小麦种子"@, ItemCategory::Item),
        112 => ("ender_pearl"@, "末影珍珠"@, ItemCategory::Item),
        113 => ("blaze_rod"@, "烈焰棒"@, ItemCategory::Item),
        114 => ("nether_star"@, "下界之星"@, ItemCategory::Item),
        115 => ("redstone"@, "红石粉"@, ItemCategory::Redstone),
        116 => ("redstone_torch"@, "红石火把"@, ItemCategory::Redstone),
        117 => ("repeater"@, "红石中继器"@, ItemCategory::Redstone),
        118 => ("comparator"@, "红石比较器"@, ItemCategory::Redstone),
        119 => ("piston"@, "活塞"@, ItemCategory::Redstone),
        120 => ("sticky_piston"@, "粘性活塞"@, ItemCategory::Redstone),
        121 => ("dispenser"@, "发射器"@, ItemCategory::Redstone),
        122 => ("dropper"@, "投掷器"@, ItemCategory::Redstone),
        123 => ("hopper"@, "漏斗"@, ItemCategory::Redstone),
        124 => ("minecart"@, "矿车"@, ItemCategory::Transportation),
        125 => ("oak_boat"@, "橡木船"@, ItemCategory::Transportation),
        126 => ("elytra"@, "鞘翅"@, ItemCategory::Transportation),
        _ => ("saddle"@, "鞍"@, ItemCategory::Transportation),
    }
}

/// The catalogue, in its fixed order.
pub open spec fn catalogue() -> Seq<(Seq<char>, Seq<char>, ItemCategory)> {
    Seq::new(CATALOGUE_SIZE as nat, |i: int| catalogue_entry(i as usize))
}

#[verifier::rlimit(100)]
fn entry_at(i: usize) -> (r: (&'static str, &'static str, ItemCategory))
    requires
        i < CATALOGUE_SIZE,
    ensures
        (r.0@, r.1@, r.2) == catalogue_entry(i),
{
    match i {
        0 => ("stone", "石头", ItemCategory::Block),
        1 => ("granite", "花岗岩", ItemCategory::Block),
        2 => ("polished_granite", "磨制花岗岩", ItemCategory::Block),
        3 => ("diorite", "闪长岩", ItemCategory::Block),
        4 => ("polished_diorite", "磨制闪长岩", ItemCategory::Block),
        5 => ("andesite", "安山岩", ItemCategory::Block),
        6 => ("polished_andesite", "磨制安山岩", ItemCategory::Block),
        7 => ("grass_block", "草方块", ItemCategory::Block),
        8 => ("dirt", "泥土", ItemCategory::Block),
        9 => ("coarse_dirt", "砂土", ItemCategory::Block),
        10 => ("podzol", "灰化土", ItemCategory::Block),
        11 => ("cobblestone", "圆石", ItemCategory::Block),
        12 => ("oak_planks", "橡木木板", ItemCategory::Block),
        13 => ("spruce_planks", "云杉木板", ItemCategory::Block),
        14 => ("birch_planks", "白桦木板", ItemCategory::Block),
        15 => ("jungle_planks", "丛林木板", ItemCategory::Block),
        16 => ("acacia_planks", "金合欢木板", ItemCategory::Block),
        17 => ("dark_oak_planks", "深色橡木木板", ItemCategory::Block),
        18 => ("crimson_planks", "绯红木板", ItemCategory::Block),
        19 => ("warped_planks", "诡异木板", ItemCategory::Block),
        20 => ("bedrock", "基岩", ItemCategory::Block),
        21 => ("sand", "沙子", ItemCategory::Block),
        22 => ("red_sand", "红沙", ItemCategory::Block),
        23 => ("gravel", "沙砾", ItemCategory::Block),
        24 => ("gold_ore", "金矿石", ItemCategory::Block),
        25 => ("deepslate_gold_ore", "深层金矿石", ItemCategory::Block),
        26 => ("iron_ore", "铁矿石", ItemCategory::Block),
        27 => ("deepslate_iron_ore", "深层铁矿石", ItemCategory::Block),
        28 => ("coal_ore", "煤矿石", ItemCategory::Block),
        29 => ("deepslate_coal_ore", "深层煤矿石", ItemCategory::Block),
        30 => ("oak_log", "橡木原木", ItemCategory::Block),
        31 => ("spruce_log", "云杉原木", ItemCategory::Block),
        32 => ("birch_log", "白桦原木", ItemCategory::Block),
        33 => ("jungle_log", "丛林原木", ItemCategory::Block),
        34 => ("acacia_log", "金合欢原木", ItemCategory::Block),
        35 => ("dark_oak_log", "深色橡木原木", ItemCategory::Block),
        36 => ("glass", "玻璃", ItemCategory::Block),
        37 => ("lapis_ore", "青金石矿石", ItemCategory::Block),
        38 => ("deepslate_lapis_ore", "深层青金石矿石", ItemCategory::Block),
        39 => ("sandstone", "砂岩", ItemCategory::Block),
        40 => ("wool", "白色羊毛", ItemCategory::Block),
        41 => ("gold_block", "金块", ItemCategory::Block),
        42 => ("iron_block", "铁块", ItemCategory::Block),
        43 => ("diamond_block", "钻石块", ItemCategory::Block),
        44 => ("emerald_block", "绿宝石块", ItemCategory::Block),
        45 => ("netherite_block", "下界合金块", ItemCategory::Block),
        46 => ("wooden_pickaxe", "木镐", ItemCategory::Tool),
        47 => ("stone_pickaxe", "石镐", ItemCategory::Tool),
        48 => ("iron_pickaxe", "铁镐", ItemCategory::Tool),
        49 => ("golden_pickaxe", "金镐", ItemCategory::Tool),
        50 => ("diamond_pickaxe", "钻石镐", ItemCategory::Tool),
        51 => ("netherite_pickaxe", "下界合金镐", ItemCategory::Tool),
        52 => ("wooden_axe", "木斧", ItemCategory::Tool),
        53 => ("stone_axe", "石斧", ItemCategory::Tool),
        54 => ("iron_axe", "铁斧", ItemCategory::Tool),
        55 => ("golden_axe", "金斧", ItemCategory::Tool),
        56 => ("diamond_axe", "钻石斧", ItemCategory::Tool),
        57 => ("netherite_axe", "下界合金斧", ItemCategory::Tool),
        58 => ("wooden_shovel", "木锹", ItemCategory::Tool),
        59 => ("stone_shovel", "石锹", ItemCategory::Tool),
        60 => ("iron_shovel", "铁锹", ItemCategory::Tool),
        61 => ("golden_shovel", "金锹", ItemCategory::Tool),
        62 => ("diamond_shovel", "钻石锹", ItemCategory::Tool),
        63 => ("netherite_shovel", "下界合金锹", ItemCategory::Tool),
        64 => ("wooden_sword", "木剑", ItemCategory::Weapon),
        65 => ("stone_sword", "石剑", ItemCategory::Weapon),
        66 => ("iron_sword", "铁剑", ItemCategory::Weapon),
        67 => ("golden_sword", "金剑", ItemCategory::Weapon),
        68 => ("diamond_sword", "钻石剑", ItemCategory::Weapon),
        69 => ("netherite_sword", "下界合金剑", ItemCategory::Weapon),
        70 => ("bow", "弓", ItemCategory::Weapon),
        71 => ("crossbow", "弩", ItemCategory::Weapon),
        72 => ("trident", "三叉戟", ItemCategory::Weapon),
        73 => ("leather_helmet", "皮革帽子", ItemCategory::Armor),
        74 => ("leather_chestplate", "皮革外套", ItemCategory::Armor),
        75 => ("leather_leggings", "皮革裤子", ItemCategory::Armor),
        76 => ("leather_boots", "皮革靴子", ItemCategory::Armor),
        77 => ("iron_helmet", "铁头盔", ItemCategory::Armor),
        78 => ("iron_chestplate", "铁胸甲", ItemCategory::Armor),
        79 => ("iron_leggings", "铁护腿", ItemCategory::Armor),
        80 => ("iron_boots", "铁靴子", ItemCategory::Armor),
        81 => ("diamond_helmet", "钻石头盔", ItemCategory::Armor),
        82 => ("diamond_chestplate", "钻石胸甲", ItemCategory::Armor),
        83 => ("diamond_leggings", "钻石护腿", ItemCategory::Armor),
        84 => ("diamond_boots", "钻石靴子", ItemCategory::Armor),
        85 => ("netherite_helmet", "下界合金头盔", ItemCategory::Armor),
        86 => ("netherite_chestplate", "下界合金胸甲", ItemCategory::Armor),
        87 => ("netherite_leggings", "下界合金护腿", ItemCategory::Armor),
        88 => ("netherite_boots", "下界合金靴子", ItemCategory::Armor),
        89 => ("apple", "苹果", ItemCategory::Food),
        90 => ("golden_apple", "金苹果", ItemCategory::Food),
        91 => ("bread", "面包", ItemCategory::Food),
        92 => ("cooked_beef", "熟牛肉", ItemCategory::Food),
        93 => ("cooked_porkchop", "熟猪排", ItemCategory::Food),
        94 => ("cooked_chicken", "熟鸡肉", ItemCategory::Food),
        95 => ("cooked_mutton", "熟羊肉", ItemCategory::Food),
        96 => ("cooked_rabbit", "熟兔肉", ItemCategory::Food),
        97 => ("cooked_cod", "熟鳕鱼", ItemCategory::Food),
        98 => ("cooked_salmon", "熟鲑鱼", ItemCategory::Food),
        99 => ("coal", "煤炭", ItemCategory::Item),
        100 => ("charcoal", "木炭", ItemCategory::Item),
        101 => ("diamond", "钻石", ItemCategory::Item),
        102 => ("emerald", "绿宝石", ItemCategory::Item),
        103 => ("iron_ingot", "铁锭", ItemCategory::Item),
        104 => ("gold_ingot", "金锭", ItemCategory::Item),
        105 => ("netherite_ingot", "下界合金锭", ItemCategory::Item),
        106 => ("stick", "木棍", ItemCategory::Item),
        107 => ("string", "线", ItemCategory::Item),
        108 => ("feather", "羽毛", ItemCategory::Item),
        109 => ("gunpowder", "火药", ItemCategory::Item),
        110 => ("wheat", "小麦", ItemCategory::Item),
        111 => ("wheat_seeds", "小麦种子", ItemCategory::Item),
        112 => ("ender_pearl", "末影珍珠", ItemCategory::Item),
        113 => ("blaze_rod", "烈焰棒", ItemCategory::Item),
        114 => ("nether_star", "下界之星", ItemCategory::Item),
        115 => ("redstone", "红石粉", ItemCategory::Redstone),
        116 => ("redstone_torch", "红石火把", ItemCategory::Redstone),
        117 => ("repeater", "红石中继器", ItemCategory::Redstone),
        118 => ("comparator", "红石比较器", ItemCategory::Redstone),
        119 => ("piston", "活塞", ItemCategory::Redstone),
        120 => ("sticky_piston", "粘性活塞", ItemCategory::Redstone),
        121 => ("dispenser", "发射器", ItemCategory::Redstone),
        122 => ("dropper", "投掷器", ItemCategory::Redstone),
        123 => ("hopper", "漏斗", ItemCategory::Redstone),
        124 => ("minecart", "矿车", ItemCategory::Transportation),
        125 => ("oak_boat", "橡木船", ItemCategory::Transportation),
        126 => ("elytra", "鞘翅", ItemCategory::Transportation),
        _ => ("saddle", "鞍", ItemCategory::Transportation),
    }
}

/// The entries of `items` in `category`, in order.
pub open spec fn in_category(
    items: Seq<(Seq<char>, Seq<char>, ItemCategory)>,
    category: ItemCategory,
) -> Seq<(Seq<char>, Seq<char>, ItemCategory)>
    decreases items.len(),
{
    if items.len() == 0 {
        items
    } else if items.last().2 == category {
        in_category(items.drop_last(), category).push(items.last())
    } else {
        in_category(items.drop_last(), category)
    }
}

/// An entry matches a query when the query, lower-cased, occurs in its lower-cased id or name.
pub open spec fn matches_query(entry: (Seq<char>, Seq<char>, ItemCategory), query: Seq<char>) -> bool {
    contains_text(lower_of(entry.0), lower_of(query)) || contains_text(lower_of(entry.1), lower_of(query))
}

/// The entries of `items` that match `query`, in order.
pub open spec fn matching(
    items: Seq<(Seq<char>, Seq<char>, ItemCategory)>,
    query: Seq<char>,
) -> Seq<(Seq<char>, Seq<char>, ItemCategory)>
    decreases items.len(),
{
    if items.len() == 0 {
        items
    } else if matches_query(items.last(), query) {
        matching(items.drop_last(), query).push(items.last())
    } else {
        matching(items.drop_last(), query)
    }
}

fn item(id: &str, name: &str, category: ItemCategory) -> (r: MinecraftItem)
    ensures
        item_view(r) == (id@, name@, category),
{
    MinecraftItem { id: id.to_owned(), name: name.to_owned(), category }
}

fn copy_item(item: &MinecraftItem) -> (r: MinecraftItem)
    ensures
        r == *item,
{
    MinecraftItem { id: item.id.clone(), name: item.name.clone(), category: item.category }
}

/// Every item of the catalogue, in its fixed order.
pub fn get_all_items() -> (r: Vec<MinecraftItem>)
    ensures
        item_views(r@) == catalogue(),
{
    let mut items: Vec<MinecraftItem> = Vec::new();
    let mut i: usize = 0;
    while i < CATALOGUE_SIZE
        invariant
            i <= CATALOGUE_SIZE,
            item_views(items@) == catalogue().take(i as int),
        decreases CATALOGUE_SIZE - i,
    {
        let entry = entry_at(i);
        let ghost before = items@;
        let made = item(entry.0, entry.1, entry.2);
        assert(item_view(made) == catalogue()[i as int]);
        items.push(made);
        assert(items@ == before.push(made));
        assert(item_views(items@) =~= item_views(before).push(item_view(made)));
        assert(catalogue().take(i as int + 1) =~= catalogue().take(i as int).push(catalogue()[i as int]));
        i = i + 1;
    }
    assert(catalogue().take(i as int) =~= catalogue());
    items
}

/// The items of the catalogue in `category`, in catalogue order.
pub fn get_items_by_category(category: ItemCategory) -> (r: Vec<MinecraftItem>)
    ensures
        item_views(r@) == in_category(catalogue(), category),
{
    let all = get_all_items();
    let mut r: Vec<MinecraftItem> = Vec::new();
    let mut i: usize = 0;
    while i < all.len()
        invariant
            i <= all@.len(),
            item_views(all@) == catalogue(),
            item_views(r@) == in_category(item_views(all@).take(i as int), category),
        decreases all@.len() - i,
    {
        let ghost prefix = item_views(all@).take(i as int + 1);
        assert(prefix.drop_last() =~= item_views(all@).take(i as int));
        assert(prefix.last() == item_view(all@[i as int]));
        let ghost before = r@;
        if all[i].category == category {
            r.push(copy_item(&all[i]));
            assert(item_views(r@) =~= item_views(before).push(item_view(all@[i as int])));
        }
        i = i + 1;
    }
    assert(item_views(all@).take(all@.len() as int) =~= item_views(all@));
    r
}

/// Whether `item` matches a query that is already lower-cased: the query occurs in the item's
/// lower-cased id or name.
pub fn item_matches(item: &MinecraftItem, lowered_query: &str) -> (r: bool)
    ensures
        r == (contains_text(lower_of(item.id@), lowered_query@) || contains_text(lower_of(item.name@), lowered_query@)),
{
    let id = lowercase(item.id.as_str());
    if text_contains(id.as_str(), lowered_query) {
        return true;
    }
    let name = lowercase(item.name.as_str());
    text_contains(name.as_str(), lowered_query)
}

/// The items of the catalogue whose id or name contains `query`, ignoring case, in catalogue
/// order. The empty query matches every item.
pub fn search_items(query: &str) -> (r: Vec<MinecraftItem>)
    ensures
        item_views(r@) == matching(catalogue(), query@),
        query@.len() == 0 ==> item_views(r@) == catalogue(),
{
    let lowered = lowercase(query);
    let all = get_all_items();
    let mut r: Vec<MinecraftItem> = Vec::new();
    let mut i: usize = 0;
    while i < all.len()
        invariant
            i <= all@.len(),
            lowered@ == lower_of(query@),
            item_views(all@) == catalogue(),
            item_views(r@) == matching(item_views(all@).take(i as int), query@),
            query@.len() == 0 ==> lowered@.len() == 0,
            query@.len() == 0 ==> item_views(r@) == item_views(all@).take(i as int),
        decreases all@.len() - i,
    {
        let ghost prefix = item_views(all@).take(i as int + 1);
        assert(prefix.drop_last() =~= item_views(all@).take(i as int));
        assert(prefix.last() == item_view(all@[i as int]));
        let ghost before = r@;
        proof {
            if query@.len() == 0 {
                let id = lower_of(all@[i as int].id@);
                assert(id.subrange(0, 0 + lowered@.len() as int) =~= lowered@);
            }
        }
        if item_matches(&all[i], lowered.as_str()) {
            r.push(copy_item(&all[i]));
            assert(item_views(r@) =~= item_views(before).push(item_view(all@[i as int])));
        }
        i = i + 1;
    }
    assert(item_views(all@).take(all@.len() as int) =~= item_views(all@));
    r
}

} // verus!
