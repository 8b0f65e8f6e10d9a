//! The settings centre: the registry of every setting the host reads, how a
//! submitted value is checked and normalised, and how a stored value is read
//! back with the registry's default and bounds.
use vstd::prelude::*;
use vstd::utf8::encode_utf8;
use crate::text::{
    lemma_decimal_text_roundtrip, lemma_trim_fixed, digits_text, digit_char, lemma_trim_idempotent, is_ws, digits_value,
    all_digits, split_seq, parse_pieces_u8, parse_u8_spec, decimal_value,
    blank, chars_of, comma_u8_list, comma_u8_list_in, contains_in, contains_seq, decimal_text,
    int_text, lower_equals, lower_matches, owned, parse_i64, parse_i64_in, parse_i64_spec,
    same_text, starts_with_in, starts_with_seq, trim, trim_seq,
};
use vstd::string::StringSliceAdditionalSpecFns;

verus! {

broadcast use vstd::string::group_string_axioms;

/// The kind of value a setting holds; the interface builds its control from it.
#[derive(Debug, Clone, Copy, PartialEq, Eq, Structural)]
pub enum SettingKind {
    Boolean,
    Integer,
    Text,
    Choice,
    /// An image as a data URL, so that it can be embedded in printed output.
    Image,
}

/// One option of a choice setting.
#[derive(Debug, Clone, Copy)]
pub struct SettingChoice {
    pub value: &'static str,
    pub label: &'static str,
}

/// The full definition of a setting.
#[derive(Debug, Clone)]
pub struct SettingDefinition {
    pub key: &'static str,
    pub group: &'static str,
    pub group_label: &'static str,
    pub label: &'static str,
    pub description: &'static str,
    /// Where in the program the setting is read.
    pub effect: &'static str,
    pub kind: SettingKind,
    pub default_value: &'static str,
    pub min: Option<i64>,
    pub max: Option<i64>,
    pub choices: Vec<SettingChoice>,
    /// Whether changing it needs a manager's permission.
    pub sensitive: bool,
}

/// A setting together with its current value.
#[derive(Debug)]
pub struct SettingWithValue {
    pub definition: SettingDefinition,
    pub value: String,
    /// Whether the user changed it from its default.
    pub is_customized: bool,
}

/// Why a setting could not be changed.
#[derive(Debug, Clone, Copy, PartialEq, Eq, Structural)]
pub enum SettingError {
    UnknownKey,
    NotBoolean,
    NotInteger,
    BelowMinimum(i64),
    AboveMaximum(i64),
    UnknownChoice,
    Empty,
    BadCodingList,
    BadCodingWidth,
    NotImage,
    ImageTooLarge,
}

/// What the logic reads of a setting: key, kind, default, bounds, the values
/// its choices offer and whether changing it needs a manager.
pub struct SettingRule {
    pub key: Seq<char>,
    pub kind: SettingKind,
    pub default: Seq<char>,
    pub min: Option<i64>,
    pub max: Option<i64>,
    pub choices: Seq<Seq<char>>,
    pub sensitive: bool,
}

/// A rule of the registry, from its parts.
pub open spec fn rule(
    key: &str,
    kind: SettingKind,
    default: &str,
    min: Option<i64>,
    max: Option<i64>,
    choices: Seq<Seq<char>>,
    sensitive: bool,
) -> SettingRule {
    SettingRule { key: key@, kind, default: default@, min, max, choices, sensitive }
}

/// The number of settings in the registry.
pub open spec fn setting_count() -> int {
    30
}

/// The rule of the `i`-th setting of the registry.
pub open spec fn setting_rule(i: int) -> SettingRule {
    if i == 0 {
        rule("inventory_valuation_method", SettingKind::Choice, "weighted_average", None, None, seq!["weighted_average"@, "fifo"@, "lifo"@], true)
    } else if i == 1 {
        rule("inventory.low_stock_threshold", SettingKind::Integer, "5", Some(0), Some(100_000), Seq::empty(), false)
    } else if i == 2 {
        rule("inventory.recount_threshold_percent", SettingKind::Integer, "5", Some(0), Some(100), Seq::empty(), false)
    } else if i == 3 {
        rule("inventory.allow_negative_stock", SettingKind::Boolean, "false", None, None, Seq::empty(), true)
    } else if i == 4 {
        rule("sales.default_vat_basis_points", SettingKind::Integer, "900", Some(0), Some(10_000), Seq::empty(), false)
    } else if i == 5 {
        rule("quotes.default_validity_days", SettingKind::Integer, "30", Some(1), Some(365), Seq::empty(), false)
    } else if i == 6 {
        rule("treasury.default_negative_policy", SettingKind::Choice, "warn", None, None, seq!["error"@, "warn"@, "ignore"@], false)
    } else if i == 7 {
        rule("checks.due_soon_days", SettingKind::Integer, "7", Some(1), Some(180), Seq::empty(), false)
    } else if i == 8 {
        rule("parties.require_national_id", SettingKind::Boolean, "false", None, None, Seq::empty(), false)
    } else if i == 9 {
        rule("parties.enforce_credit_limit", SettingKind::Boolean, "true", None, None, Seq::empty(), false)
    } else if i == 10 {
        rule("production.default_cost_allocation", SettingKind::Choice, "by_quantity", None, None, seq!["by_quantity"@, "by_market_value"@], false)
    } else if i == 11 {
        rule("accounting.require_description", SettingKind::Boolean, "false", None, None, Seq::empty(), false)
    } else if i == 12 {
        rule("coding.level_widths", SettingKind::Text, "1,2,2,2", None, None, Seq::empty(), true)
    } else if i == 13 {
        rule("appearance.language", SettingKind::Choice, "fa", None, None, seq!["fa"@, "en"@, "ar"@], false)
    } else if i == 14 {
        rule("appearance.dark_mode", SettingKind::Boolean, "true", None, None, Seq::empty(), false)
    } else if i == 15 {
        rule("appearance.sidebar_collapsed", SettingKind::Boolean, "false", None, None, Seq::empty(), false)
    } else if i == 16 {
        rule("appearance.rows_per_page", SettingKind::Integer, "50", Some(10), Some(500), Seq::empty(), false)
    } else if i == 17 {
        rule("company.display_name", SettingKind::Text, "شرکت نوین پرداز", None, None, Seq::empty(), false)
    } else if i == 18 {
        rule("company.phone", SettingKind::Text, "021-00000000", None, None, Seq::empty(), false)
    } else if i == 19 {
        rule("company.address", SettingKind::Text, "—", None, None, Seq::empty(), false)
    } else if i == 20 {
        rule("company.economic_code", SettingKind::Text, "—", None, None, Seq::empty(), false)
    } else if i == 21 {
        rule("company.logo", SettingKind::Image, "", None, None, Seq::empty(), false)
    } else if i == 22 {
        rule("user.avatar", SettingKind::Image, "", None, None, Seq::empty(), false)
    } else if i == 23 {
        rule("hardware.barcode_enabled", SettingKind::Boolean, "true", None, None, Seq::empty(), false)
    } else if i == 24 {
        rule("hardware.barcode_min_length", SettingKind::Integer, "6", Some(3), Some(40), Seq::empty(), false)
    } else if i == 25 {
        rule("hardware.barcode_max_gap_ms", SettingKind::Integer, "60", Some(15), Some(300), Seq::empty(), false)
    } else if i == 26 {
        rule("hardware.barcode_suffix", SettingKind::Choice, "enter", None, None, seq!["enter"@, "tab"@, "none"@], false)
    } else if i == 27 {
        rule("printing.receipt_paper", SettingKind::Choice, "80mm", None, None, seq!["80mm"@, "58mm"@], false)
    } else if i == 28 {
        rule("printing.footer_note", SettingKind::Text, "از خرید شما سپاسگزاریم", None, None, Seq::empty(), false)
    } else if i == 29 {
        rule("printing.copies", SettingKind::Integer, "1", Some(1), Some(5), Seq::empty(), false)
    } else {
        rule("", SettingKind::Text, "", None, None, Seq::empty(), false)
    }
}

/// What a definition shows the user: its group and the group's label, its
/// own label, what it does, where it takes effect, and the labels of its
/// choices.
pub struct SettingText {
    pub group: Seq<char>,
    pub group_label: Seq<char>,
    pub label: Seq<char>,
    pub description: Seq<char>,
    pub effect: Seq<char>,
    pub choice_labels: Seq<Seq<char>>,
}

/// The texts of a registry entry, from its parts.
pub open spec fn shown(
    group: &str,
    group_label: &str,
    label: &str,
    description: &str,
    effect: &str,
    choice_labels: Seq<Seq<char>>,
) -> SettingText {
    SettingText {
        group: group@,
        group_label: group_label@,
        label: label@,
        description: description@,
        effect: effect@,
        choice_labels,
    }
}

/// The texts of the `i`-th setting of the registry.
pub open spec fn setting_text(i: int) -> SettingText {
    if i == 0 {
        shown(
            "inventory",
            "انبار",
            "روش ارزش‌گذاری موجودی",
            "بهای تمام‌شده‌ی کالای خارج‌شده از انبار با کدام روش محاسبه شود.",
            "گزارش ارزش موجودی، بهای تمام‌شده‌ی فروش، سند تعدیل انبارگردانی",
            seq!["میانگین موزون"@, "اولین صادره از اولین وارده (FIFO)"@, "اولین صادره از آخرین وارده (LIFO)"@],
        )
    } else if i == 1 {
        shown(
            "inventory",
            "انبار",
            "حد هشدار کمبود موجودی",
            "اگر موجودی کالا از این عدد کمتر شود، در کارت «نزدیک به اتمام موجودی» دیده می‌شود.",
            "داشبورد انبار — کارت نزدیک به اتمام موجودی",
            Seq::empty(),
        )
    } else if i == 2 {
        shown(
            "inventory",
            "انبار",
            "درصد اختلاف الزام‌آور شمارش مجدد",
            "اگر اختلاف شمارش از این درصد بیشتر باشد، شمارش دوم اجباری می‌شود.",
            "انبارگردانی — الزام شمارش مجدد پیش از تأیید اختلاف",
            Seq::empty(),
        )
    } else if i == 3 {
        shown(
            "inventory",
            "انبار",
            "اجازه‌ی منفی شدن موجودی",
            "اگر فعال باشد، فروش بیش از موجودی ممکن می‌شود. برای فروشگاه‌هایی که ثبت ورود کالا با تأخیر انجام می‌دهند.",
            "ثبت فاکتور فروش و رسید تولید — کنترل کفایت موجودی",
            Seq::empty(),
        )
    } else if i == 4 {
        shown(
            "sales",
            "فروش و خرید",
            "نرخ پیش‌فرض مالیات بر ارزش افزوده",
            "بر حسب صدم‌درصد؛ ۹۰۰ یعنی ۹ درصد. مبنای مالیات، مبلغ پس از تخفیف است.",
            "فرم فاکتور فروش، پیش‌فاکتور و سفارش خرید — مقدار اولیه‌ی نرخ مالیات",
            Seq::empty(),
        )
    } else if i == 5 {
        shown(
            "sales",
            "فروش و خرید",
            "اعتبار پیش‌فرض پیش‌فاکتور (روز)",
            "تاریخ اعتبار پیش‌فاکتور به‌طور خودکار این تعداد روز بعد از تاریخ صدور پیشنهاد می‌شود.",
            "فرم پیش‌فاکتور — مقدار اولیه‌ی «اعتبار تا»",
            Seq::empty(),
        )
    } else if i == 6 {
        shown(
            "treasury",
            "خزانه و چک",
            "سیاست پیش‌فرض منفی شدن موجودی",
            "برای حساب خزانه‌ی تازه‌ساخته‌شده. صندوق نقدی معمولاً «خطا» و حساب بانکی «هشدار» می‌گیرد.",
            "فرم تعریف صندوق و بانک — مقدار اولیه‌ی سیاست منفی",
            seq!["خطا — عملیات انجام نمی‌شود"@, "هشدار — انجام می‌شود ولی پیام داده می‌شود"@, "بی‌تأثیر"@],
        )
    } else if i == 7 {
        shown(
            "treasury",
            "خزانه و چک",
            "بازه‌ی هشدار سررسید چک (روز)",
            "چک‌هایی که تا این تعداد روز آینده سررسید می‌شوند، در داشبورد چک هشدار می‌گیرند.",
            "داشبورد چک‌ها — شمارنده‌ی «نزدیک سررسید»",
            Seq::empty(),
        )
    } else if i == 8 {
        shown(
            "parties",
            "اشخاص",
            "الزام کد ملی / شناسه ملی",
            "اگر فعال باشد، ثبت شخص بدون کد ملی (حقیقی) یا شناسه ملی (حقوقی) ممکن نیست. برای صدور صورتحساب رسمی لازم است.",
            "فرم ثبت شخص — اعتبارسنجی پیش از ذخیره",
            Seq::empty(),
        )
    } else if i == 9 {
        shown(
            "parties",
            "اشخاص",
            "اعمال سقف اعتبار",
            "اگر فعال باشد، فروش نسیه بیش از سقف اعتبار شخص متوقف می‌شود؛ در غیر این صورت فقط هشدار داده می‌شود.",
            "ثبت فاکتور فروش نسیه — کنترل سقف اعتبار",
            Seq::empty(),
        )
    } else if i == 10 {
        shown(
            "production",
            "تولید",
            "روش پیش‌فرض تخصیص بهای تمام‌شده",
            "وقتی یک رسید تولید چند محصول دارد، بهای تمام‌شده با کدام روش تقسیم شود.",
            "فرم رسید تولید — مقدار اولیه‌ی روش تخصیص",
            seq!["بر اساس مقدار"@, "بر اساس ارزش بازار"@],
        )
    } else if i == 11 {
        shown(
            "accounting",
            "حسابداری",
            "الزام شرح در سطر سند",
            "اگر فعال باشد، هیچ سطر سندی بدون شرح ثبت نمی‌شود. برای حسابرسی‌پذیری توصیه می‌شود.",
            "ثبت سند حسابداری — اعتبارسنجی سطرها",
            Seq::empty(),
        )
    } else if i == 12 {
        shown(
            "accounting",
            "حسابداری",
            "طرح کدینگ (عرض هر سطح)",
            "تعداد رقم هر سطح کدینگ، جدا شده با ویرگول. پیش‌فرض ۱،۲،۲،۲ یعنی گروه یک رقم و تفصیلی هفت رقم.",
            "کدینگ حساب‌ها — پیشنهاد کد بعدی و گزارش سلامت کدینگ",
            Seq::empty(),
        )
    } else if i == 13 {
        shown(
            "appearance",
            "ظاهر",
            "زبان برنامه",
            "زبان متن‌های رابط کاربری، جهت صفحه (راست‌به‌چپ یا چپ‌به‌راست) و شکل ارقام را تعیین می‌کند.",
            "کل رابط کاربری — متن‌ها، جهت چیدمان و ارقام (۱۲۳ / ١٢٣ / 123)",
            seq!["فارسی"@, "English"@, "العربية"@],
        )
    } else if i == 14 {
        shown(
            "appearance",
            "ظاهر",
            "تم تاریک",
            "حالت نمایش برنامه در شروع. پیش‌فرض برنامه تیره است.",
            "پوسته‌ی برنامه — تم اولیه هنگام باز شدن",
            Seq::empty(),
        )
    } else if i == 15 {
        shown(
            "appearance",
            "ظاهر",
            "منوی جمع‌شده در شروع",
            "منوی کناری در شروع جمع‌شده باشد تا فضای بیشتری برای جدول‌ها بماند.",
            "پوسته‌ی برنامه — وضعیت اولیه‌ی منوی کناری",
            Seq::empty(),
        )
    } else if i == 16 {
        shown(
            "appearance",
            "ظاهر",
            "تعداد ردیف در هر صفحه",
            "تعداد ردیفی که در جدول‌های بلند یک‌جا نمایش داده می‌شود.",
            "جدول‌های فهرست — اندازه‌ی صفحه",
            Seq::empty(),
        )
    } else if i == 17 {
        shown(
            "company",
            "هویت مجموعه",
            "نام روی فاکتور و رسید",
            "نامی که در سربرگ همه‌ی چاپ‌ها می‌آید. اگر خالی بماند نام شرکت استفاده می‌شود.",
            "سربرگ فاکتور، رسید فروشگاهی، سند حسابداری و برچسب",
            Seq::empty(),
        )
    } else if i == 18 {
        shown(
            "company",
            "هویت مجموعه",
            "شماره تماس مجموعه",
            "شماره‌ای که زیر نام مجموعه در سربرگ چاپ نمایش داده می‌شود.",
            "سربرگ فاکتور و رسید فروشگاهی",
            Seq::empty(),
        )
    } else if i == 19 {
        shown(
            "company",
            "هویت مجموعه",
            "نشانی مجموعه",
            "نشانی که در پای فاکتور رسمی چاپ می‌شود.",
            "سربرگ فاکتور A4",
            Seq::empty(),
        )
    } else if i == 20 {
        shown(
            "company",
            "هویت مجموعه",
            "کد اقتصادی",
            "کد اقتصادی مؤدی؛ در صورتحساب رسمی الزامی است.",
            "سربرگ فاکتور رسمی",
            Seq::empty(),
        )
    } else if i == 21 {
        shown(
            "company",
            "هویت مجموعه",
            "لوگوی مجموعه",
            "تصویر لوگو که در سربرگ چاپ می‌آید. خالی گذاشتن یعنی بدون لوگو.",
            "سربرگ فاکتور، رسید فروشگاهی و برچسب",
            Seq::empty(),
        )
    } else if i == 22 {
        shown(
            "company",
            "هویت مجموعه",
            "تصویر پروفایل کاربر",
            "تصویری که کنار نام کاربر در نوار بالا و منوی کناری دیده می‌شود. خالی یعنی نشان پیش‌فرض طلایی.",
            "نوار بالا و پای منوی کناری",
            Seq::empty(),
        )
    } else if i == 23 {
        shown(
            "hardware",
            "سخت‌افزار",
            "بارکدخوان فعال باشد",
            "با فعال بودن، اسکن بارکد در فرم فاکتور کالا را خودکار به سطرها اضافه می‌کند.",
            "فرم صدور فاکتور — افزودن خودکار کالا با اسکن",
            Seq::empty(),
        )
    } else if i == 24 {
        shown(
            "hardware",
            "سخت‌افزار",
            "حداقل طول بارکد",
            "رشته‌ی کوتاه‌تر از این، تایپ دستی فرض می‌شود نه اسکن.",
            "تشخیص اسکن از تایپ در فرم فاکتور",
            Seq::empty(),
        )
    } else if i == 25 {
        shown(
            "hardware",
            "سخت‌افزار",
            "بیشترین فاصله‌ی دو کاراکتر (میلی‌ثانیه)",
            "بارکدخوان کاراکترها را بسیار سریع می‌فرستد. فاصله‌ی بیشتر از این یعنی انسان تایپ می‌کند.",
            "تشخیص اسکن از تایپ در فرم فاکتور",
            Seq::empty(),
        )
    } else if i == 26 {
        shown(
            "hardware",
            "سخت‌افزار",
            "کاراکتر پایان اسکن",
            "اغلب بارکدخوان‌ها بعد از بارکد یک Enter می‌فرستند. اگر دستگاه شما Tab می‌فرستد اینجا عوض کنید.",
            "تشخیص پایان اسکن در فرم فاکتور",
            seq!["Enter (پیش‌فرض اغلب دستگاه‌ها)"@, "Tab"@, "بدون کاراکتر پایان — تشخیص با زمان"@],
        )
    } else if i == 27 {
        shown(
            "printing",
            "چاپ",
            "عرض کاغذ رسید فروشگاهی",
            "پرینترهای حرارتی معمولاً ۸۰ یا ۵۸ میلی‌متری‌اند.",
            "اندازه‌ی صفحه در چاپ رسید فروشگاهی",
            seq!["۸۰ میلی‌متر (رایج‌ترین)"@, "۵۸ میلی‌متر"@],
        )
    } else if i == 28 {
        shown(
            "printing",
            "چاپ",
            "پیام پایین رسید",
            "جمله‌ای که انتهای هر رسید فروشگاهی چاپ می‌شود.",
            "پاورقی رسید فروشگاهی",
            Seq::empty(),
        )
    } else if i == 29 {
        shown(
            "printing",
            "چاپ",
            "تعداد نسخه‌ی پیش‌فرض",
            "چند نسخه از هر فاکتور یک‌جا چاپ شود (مثلاً نسخه‌ی مشتری و نسخه‌ی حسابداری).",
            "چاپ فاکتور و رسید",
            Seq::empty(),
        )
    } else {
        shown("", "", "", "", "", Seq::empty())
    }
}

/// The labels of a setting's choices.
pub open spec fn choice_labels(cs: Seq<SettingChoice>) -> Seq<Seq<char>> {
    cs.map_values(|c: SettingChoice| c.label@)
}

/// The texts that a definition carries.
pub open spec fn definition_text(d: SettingDefinition) -> SettingText {
    SettingText {
        group: d.group@,
        group_label: d.group_label@,
        label: d.label@,
        description: d.description@,
        effect: d.effect@,
        choice_labels: choice_labels(d.choices@),
    }
}

/// The values of a setting's choices.
pub open spec fn choice_values(cs: Seq<SettingChoice>) -> Seq<Seq<char>> {
    cs.map_values(|c: SettingChoice| c.value@)
}

/// The rule that a definition carries.
pub open spec fn definition_rule(d: SettingDefinition) -> SettingRule {
    SettingRule {
        key: d.key@,
        kind: d.kind,
        default: d.default_value@,
        min: d.min,
        max: d.max,
        choices: choice_values(d.choices@),
        sensitive: d.sensitive,
    }
}

/// `v` holds the first `n` settings of the registry, in order.
pub open spec fn follows_rules(v: Seq<SettingDefinition>, n: int) -> bool {
    &&& v.len() == n
    &&& forall|i: int|
        0 <= i < n ==> #[trigger] definition_rule(v[i]) == setting_rule(i) && definition_text(v[i]) == setting_text(i)
}

/// The index of the first registry entry with this key, searching from `i`.
pub open spec fn first_rule_from(key: Seq<char>, i: int) -> Option<int>
    decreases setting_count() - i,
{
    if i < 0 || i >= setting_count() {
        None
    } else if setting_rule(i).key == key {
        Some(i)
    } else {
        first_rule_from(key, i + 1)
    }
}

/// The rule registered under `key`, if any.
pub open spec fn rule_for(key: Seq<char>) -> Option<SettingRule> {
    match first_rule_from(key, 0) {
        Some(i) => Some(setting_rule(i)),
        None => None,
    }
}

/// The words that read as "yes", compared after ASCII lower-casing.
pub open spec fn is_true_word(t: Seq<char>) -> bool {
    lower_equals(t, "true"@) || lower_equals(t, "1"@) || lower_equals(t, "yes"@) || lower_equals(t, "on"@)
}

/// The words that read as "no", compared after ASCII lower-casing.
pub open spec fn is_false_word(t: Seq<char>) -> bool {
    lower_equals(t, "false"@) || lower_equals(t, "0"@) || lower_equals(t, "no"@) || lower_equals(t, "off"@)
}

/// A coding scheme: at least one level, each between one and six digits wide.
pub open spec fn coding_widths_ok(ws: Seq<u8>) -> bool {
    ws.len() > 0 && forall|i: int| 0 <= i < ws.len() ==> 1 <= #[trigger] ws[i] <= 6
}

/// The largest image, in bytes of its data URL.
pub open spec fn image_limit() -> nat {
    1_400_000
}

/// The outcome of checking `value` against a setting: the normalised value
/// that is stored, or why it is refused.
pub open spec fn validate_rule(r: SettingRule, value: Seq<char>) -> Result<Seq<char>, SettingError> {
    let t = trim_seq(value);
    match r.kind {
        SettingKind::Boolean => if is_true_word(t) {
            Ok("true"@)
        } else if is_false_word(t) {
            Ok("false"@)
        } else {
            Err(SettingError::NotBoolean)
        },
        SettingKind::Integer => match parse_i64_spec(t) {
            None => Err(SettingError::NotInteger),
            Some(n) => if r.min is Some && n < r.min->0 {
                Err(SettingError::BelowMinimum(r.min->0))
            } else if r.max is Some && n > r.max->0 {
                Err(SettingError::AboveMaximum(r.max->0))
            } else {
                Ok(decimal_text(n as int))
            },
        },
        SettingKind::Choice => if r.choices.contains(t) {
            Ok(t)
        } else {
            Err(SettingError::UnknownChoice)
        },
        SettingKind::Image => if t.len() == 0 {
            Ok(t)
        } else if !(starts_with_seq(t, "data:image/"@) && contains_seq(t, ";base64,"@)) {
            Err(SettingError::NotImage)
        } else if encode_utf8(t).len() > image_limit() {
            Err(SettingError::ImageTooLarge)
        } else {
            Ok(t)
        },
        SettingKind::Text => if t.len() == 0 {
            Err(SettingError::Empty)
        } else if r.key == "coding.level_widths"@ {
            match comma_u8_list(t) {
                None => Err(SettingError::BadCodingList),
                Some(ws) => if coding_widths_ok(ws) {
                    Ok(t)
                } else {
                    Err(SettingError::BadCodingWidth)
                },
            }
        } else {
            Ok(t)
        },
    }
}

/// A `Result` of a `String`, by the characters of the string.
pub open spec fn text_result(r: Result<String, SettingError>) -> Result<Seq<char>, SettingError> {
    match r {
        Ok(s) => Ok(s@),
        Err(e) => Err(e),
    }
}

fn choice(value: &'static str, label: &'static str) -> (r: SettingChoice)
    ensures
        r.value == value,
        r.label == label,
{
    SettingChoice { value, label }
}

fn inventory_settings(v: &mut Vec<SettingDefinition>)
    requires
        follows_rules(old(v)@, 0),
    ensures
        follows_rules(final(v)@, 4),
{
    v.push(SettingDefinition {
            key: "inventory_valuation_method",
            group: "inventory",
            group_label: "انبار",
            label: "روش ارزش‌گذاری موجودی",
            description: "بهای تمام‌شده‌ی کالای خارج‌شده از انبار با کدام روش محاسبه شود.",
            effect: "گزارش ارزش موجودی، بهای تمام‌شده‌ی فروش، سند تعدیل انبارگردانی",
            kind: SettingKind::Choice,
            default_value: "weighted_average",
            min: None,
            max: None,
            choices: vec![
                choice("weighted_average", "میانگین موزون"),
                choice("fifo", "اولین صادره از اولین وارده (FIFO)"),
                choice("lifo", "اولین صادره از آخرین وارده (LIFO)"),
            ],
            sensitive: true,
        });
    proof {
        assert(choice_values(v@[0].choices@) =~= setting_rule(0).choices);
        assert(choice_labels(v@[0].choices@) =~= setting_text(0).choice_labels);
    }
    v.push(SettingDefinition {
            key: "inventory.low_stock_threshold",
            group: "inventory",
            group_label: "انبار",
            label: "حد هشدار کمبود موجودی",
            description: "اگر موجودی کالا از این عدد کمتر شود، در کارت «نزدیک به اتمام موجودی» دیده می‌شود.",
            effect: "داشبورد انبار — کارت نزدیک به اتمام موجودی",
            kind: SettingKind::Integer,
            default_value: "5",
            min: Some(0),
            max: Some(100_000),
            choices: Vec::new(),
            sensitive: false,
        });
    proof {
        assert(choice_values(v@[1].choices@) =~= setting_rule(1).choices);
        assert(choice_labels(v@[1].choices@) =~= setting_text(1).choice_labels);
    }
    v.push(SettingDefinition {
            key: "inventory.recount_threshold_percent",
            group: "inventory",
            group_label: "انبار",
            label: "درصد اختلاف الزام‌آور شمارش مجدد",
            description: "اگر اختلاف شمارش از این درصد بیشتر باشد، شمارش دوم اجباری می‌شود.",
            effect: "انبارگردانی — الزام شمارش مجدد پیش از تأیید اختلاف",
            kind: SettingKind::Integer,
            default_value: "5",
            min: Some(0),
            max: Some(100),
            choices: Vec::new(),
            sensitive: false,
        });
    proof {
        assert(choice_values(v@[2].choices@) =~= setting_rule(2).choices);
        assert(choice_labels(v@[2].choices@) =~= setting_text(2).choice_labels);
    }
    v.push(SettingDefinition {
            key: "inventory.allow_negative_stock",
            group: "inventory",
            group_label: "انبار",
            label: "اجازه‌ی منفی شدن موجودی",
            description: "اگر فعال باشد، فروش بیش از موجودی ممکن می‌شود. برای فروشگاه‌هایی که ثبت ورود کالا با تأخیر انجام می‌دهند.",
            effect: "ثبت فاکتور فروش و رسید تولید — کنترل کفایت موجودی",
            kind: SettingKind::Boolean,
            default_value: "false",
            min: None,
            max: None,
            choices: Vec::new(),
            sensitive: true,
        });
    proof {
        assert(choice_values(v@[3].choices@) =~= setting_rule(3).choices);
        assert(choice_labels(v@[3].choices@) =~= setting_text(3).choice_labels);
    }
    assert forall|i: int| 0 <= i < 4 implies #[trigger] definition_rule(v@[i]) == setting_rule(i) && definition_text(v@[i])
        == setting_text(i) by {
        if i < 0 {
            assert(v@[i] == old(v)@[i]);
        }
    }
}

fn sales_settings(v: &mut Vec<SettingDefinition>)
    requires
        follows_rules(old(v)@, 4),
    ensures
        follows_rules(final(v)@, 6),
{
    v.push(SettingDefinition {
            key: "sales.default_vat_basis_points",
            group: "sales",
            group_label: "فروش و خرید",
            label: "نرخ پیش‌فرض مالیات بر ارزش افزوده",
            description: "بر حسب صدم‌درصد؛ ۹۰۰ یعنی ۹ درصد. مبنای مالیات، مبلغ پس از تخفیف است.",
            effect: "فرم فاکتور فروش، پیش‌فاکتور و سفارش خرید — مقدار اولیه‌ی نرخ مالیات",
            kind: SettingKind::Integer,
            default_value: "900",
            min: Some(0),
            max: Some(10_000),
            choices: Vec::new(),
            sensitive: false,
        });
    proof {
        assert(choice_values(v@[4].choices@) =~= setting_rule(4).choices);
        assert(choice_labels(v@[4].choices@) =~= setting_text(4).choice_labels);
    }
    v.push(SettingDefinition {
            key: "quotes.default_validity_days",
            group: "sales",
            group_label: "فروش و خرید",
            label: "اعتبار پیش‌فرض پیش‌فاکتور (روز)",
            description: "تاریخ اعتبار پیش‌فاکتور به‌طور خودکار این تعداد روز بعد از تاریخ صدور پیشنهاد می‌شود.",
            effect: "فرم پیش‌فاکتور — مقدار اولیه‌ی «اعتبار تا»",
            kind: SettingKind::Integer,
            default_value: "30",
            min: Some(1),
            max: Some(365),
            choices: Vec::new(),
            sensitive: false,
        });
    proof {
        assert(choice_values(v@[5].choices@) =~= setting_rule(5).choices);
        assert(choice_labels(v@[5].choices@) =~= setting_text(5).choice_labels);
    }
    assert forall|i: int| 0 <= i < 6 implies #[trigger] definition_rule(v@[i]) == setting_rule(i) && definition_text(v@[i])
        == setting_text(i) by {
        if i < 4 {
            assert(v@[i] == old(v)@[i]);
        }
    }
}

fn treasury_settings(v: &mut Vec<SettingDefinition>)
    requires
        follows_rules(old(v)@, 6),
    ensures
        follows_rules(final(v)@, 8),
{
    v.push(SettingDefinition {
            key: "treasury.default_negative_policy",
            group: "treasury",
            group_label: "خزانه و چک",
            label: "سیاست پیش‌فرض منفی شدن موجودی",
            description: "برای حساب خزانه‌ی تازه‌ساخته‌شده. صندوق نقدی معمولاً «خطا» و حساب بانکی «هشدار» می‌گیرد.",
            effect: "فرم تعریف صندوق و بانک — مقدار اولیه‌ی سیاست منفی",
            kind: SettingKind::Choice,
            default_value: "warn",
            min: None,
            max: None,
            choices: vec![
                choice("error", "خطا — عملیات انجام نمی‌شود"),
                choice("warn", "هشدار — انجام می‌شود ولی پیام داده می‌شود"),
                choice("ignore", "بی‌تأثیر"),
            ],
            sensitive: false,
        });
    proof {
        assert(choice_values(v@[6].choices@) =~= setting_rule(6).choices);
        assert(choice_labels(v@[6].choices@) =~= setting_text(6).choice_labels);
    }
    v.push(SettingDefinition {
            key: "checks.due_soon_days",
            group: "treasury",
            group_label: "خزانه و چک",
            label: "بازه‌ی هشدار سررسید چک (روز)",
            description: "چک‌هایی که تا این تعداد روز آینده سررسید می‌شوند، در داشبورد چک هشدار می‌گیرند.",
            effect: "داشبورد چک‌ها — شمارنده‌ی «نزدیک سررسید»",
            kind: SettingKind::Integer,
            default_value: "7",
            min: Some(1),
            max: Some(180),
            choices: Vec::new(),
            sensitive: false,
        });
    proof {
        assert(choice_values(v@[7].choices@) =~= setting_rule(7).choices);
        assert(choice_labels(v@[7].choices@) =~= setting_text(7).choice_labels);
    }
    assert forall|i: int| 0 <= i < 8 implies #[trigger] definition_rule(v@[i]) == setting_rule(i) && definition_text(v@[i])
        == setting_text(i) by {
        if i < 6 {
            assert(v@[i] == old(v)@[i]);
        }
    }
}

fn parties_settings(v: &mut Vec<SettingDefinition>)
    requires
        follows_rules(old(v)@, 8),
    ensures
        follows_rules(final(v)@, 10),
{
    v.push(SettingDefinition {
            key: "parties.require_national_id",
            group: "parties",
            group_label: "اشخاص",
            label: "الزام کد ملی / شناسه ملی",
            description: "اگر فعال باشد، ثبت شخص بدون کد ملی (حقیقی) یا شناسه ملی (حقوقی) ممکن نیست. برای صدور صورتحساب رسمی لازم است.",
            effect: "فرم ثبت شخص — اعتبارسنجی پیش از ذخیره",
            kind: SettingKind::Boolean,
            default_value: "false",
            min: None,
            max: None,
            choices: Vec::new(),
            sensitive: false,
        });
    proof {
        assert(choice_values(v@[8].choices@) =~= setting_rule(8).choices);
        assert(choice_labels(v@[8].choices@) =~= setting_text(8).choice_labels);
    }
    v.push(SettingDefinition {
            key: "parties.enforce_credit_limit",
            group: "parties",
            group_label: "اشخاص",
            label: "اعمال سقف اعتبار",
            description: "اگر فعال باشد، فروش نسیه بیش از سقف اعتبار شخص متوقف می‌شود؛ در غیر این صورت فقط هشدار داده می‌شود.",
            effect: "ثبت فاکتور فروش نسیه — کنترل سقف اعتبار",
            kind: SettingKind::Boolean,
            default_value: "true",
            min: None,
            max: None,
            choices: Vec::new(),
            sensitive: false,
        });
    proof {
        assert(choice_values(v@[9].choices@) =~= setting_rule(9).choices);
        assert(choice_labels(v@[9].choices@) =~= setting_text(9).choice_labels);
    }
    assert forall|i: int| 0 <= i < 10 implies #[trigger] definition_rule(v@[i]) == setting_rule(i) && definition_text(v@[i])
        == setting_text(i) by {
        if i < 8 {
            assert(v@[i] == old(v)@[i]);
        }
    }
}

fn production_settings(v: &mut Vec<SettingDefinition>)
    requires
        follows_rules(old(v)@, 10),
    ensures
        follows_rules(final(v)@, 11),
{
    v.push(SettingDefinition {
            key: "production.default_cost_allocation",
            group: "production",
            group_label: "تولید",
            label: "روش پیش‌فرض تخصیص بهای تمام‌شده",
            description: "وقتی یک رسید تولید چند محصول دارد، بهای تمام‌شده با کدام روش تقسیم شود.",
            effect: "فرم رسید تولید — مقدار اولیه‌ی روش تخصیص",
            kind: SettingKind::Choice,
            default_value: "by_quantity",
            min: None,
            max: None,
            choices: vec![
                choice("by_quantity", "بر اساس مقدار"),
                choice("by_market_value", "بر اساس ارزش بازار"),
            ],
            sensitive: false,
        });
    proof {
        assert(choice_values(v@[10].choices@) =~= setting_rule(10).choices);
        assert(choice_labels(v@[10].choices@) =~= setting_text(10).choice_labels);
    }
    assert forall|i: int| 0 <= i < 11 implies #[trigger] definition_rule(v@[i]) == setting_rule(i) && definition_text(v@[i])
        == setting_text(i) by {
        if i < 10 {
            assert(v@[i] == old(v)@[i]);
        }
    }
}

fn accounting_settings(v: &mut Vec<SettingDefinition>)
    requires
        follows_rules(old(v)@, 11),
    ensures
        follows_rules(final(v)@, 13),
{
    v.push(SettingDefinition {
            key: "accounting.require_description",
            group: "accounting",
            group_label: "حسابداری",
            label: "الزام شرح در سطر سند",
            description: "اگر فعال باشد، هیچ سطر سندی بدون شرح ثبت نمی‌شود. برای حسابرسی‌پذیری توصیه می‌شود.",
            effect: "ثبت سند حسابداری — اعتبارسنجی سطرها",
            kind: SettingKind::Boolean,
            default_value: "false",
            min: None,
            max: None,
            choices: Vec::new(),
            sensitive: false,
        });
    proof {
        assert(choice_values(v@[11].choices@) =~= setting_rule(11).choices);
        assert(choice_labels(v@[11].choices@) =~= setting_text(11).choice_labels);
    }
    v.push(SettingDefinition {
            key: "coding.level_widths",
            group: "accounting",
            group_label: "حسابداری",
            label: "طرح کدینگ (عرض هر سطح)",
            description: "تعداد رقم هر سطح کدینگ، جدا شده با ویرگول. پیش‌فرض ۱،۲،۲،۲ یعنی گروه یک رقم و تفصیلی هفت رقم.",
            effect: "کدینگ حساب‌ها — پیشنهاد کد بعدی و گزارش سلامت کدینگ",
            kind: SettingKind::Text,
            default_value: "1,2,2,2",
            min: None,
            max: None,
            choices: Vec::new(),
            sensitive: true,
        });
    proof {
        assert(choice_values(v@[12].choices@) =~= setting_rule(12).choices);
        assert(choice_labels(v@[12].choices@) =~= setting_text(12).choice_labels);
    }
    assert forall|i: int| 0 <= i < 13 implies #[trigger] definition_rule(v@[i]) == setting_rule(i) && definition_text(v@[i])
        == setting_text(i) by {
        if i < 11 {
            assert(v@[i] == old(v)@[i]);
        }
    }
}

fn appearance_settings(v: &mut Vec<SettingDefinition>)
    requires
        follows_rules(old(v)@, 13),
    ensures
        follows_rules(final(v)@, 17),
{
    v.push(SettingDefinition {
            key: "appearance.language",
            group: "appearance",
            group_label: "ظاهر",
            label: "زبان برنامه",
            description: "زبان متن‌های رابط کاربری، جهت صفحه (راست‌به‌چپ یا چپ‌به‌راست) و شکل ارقام را تعیین می‌کند.",
            effect: "کل رابط کاربری — متن‌ها، جهت چیدمان و ارقام (۱۲۳ / ١٢٣ / 123)",
            kind: SettingKind::Choice,
            default_value: "fa",
            min: None,
            max: None,
            choices: vec![
                choice("fa", "فارسی"),
                choice("en", "English"),
                choice("ar", "العربية"),
            ],
            sensitive: false,
        });
    proof {
        assert(choice_values(v@[13].choices@) =~= setting_rule(13).choices);
        assert(choice_labels(v@[13].choices@) =~= setting_text(13).choice_labels);
    }
    v.push(SettingDefinition {
            key: "appearance.dark_mode",
            group: "appearance",
            group_label: "ظاهر",
            label: "تم تاریک",
            description: "حالت نمایش برنامه در شروع. پیش‌فرض برنامه تیره است.",
            effect: "پوسته‌ی برنامه — تم اولیه هنگام باز شدن",
            kind: SettingKind::Boolean,
            default_value: "true",
            min: None,
            max: None,
            choices: Vec::new(),
            sensitive: false,
        });
    proof {
        assert(choice_values(v@[14].choices@) =~= setting_rule(14).choices);
        assert(choice_labels(v@[14].choices@) =~= setting_text(14).choice_labels);
    }
    v.push(SettingDefinition {
            key: "appearance.sidebar_collapsed",
            group: "appearance",
            group_label: "ظاهر",
            label: "منوی جمع‌شده در شروع",
            description: "منوی کناری در شروع جمع‌شده باشد تا فضای بیشتری برای جدول‌ها بماند.",
            effect: "پوسته‌ی برنامه — وضعیت اولیه‌ی منوی کناری",
            kind: SettingKind::Boolean,
            default_value: "false",
            min: None,
            max: None,
            choices: Vec::new(),
            sensitive: false,
        });
    proof {
        assert(choice_values(v@[15].choices@) =~= setting_rule(15).choices);
        assert(choice_labels(v@[15].choices@) =~= setting_text(15).choice_labels);
    }
    v.push(SettingDefinition {
            key: "appearance.rows_per_page",
            group: "appearance",
            group_label: "ظاهر",
            label: "تعداد ردیف در هر صفحه",
            description: "تعداد ردیفی که در جدول‌های بلند یک‌جا نمایش داده می‌شود.",
            effect: "جدول‌های فهرست — اندازه‌ی صفحه",
            kind: SettingKind::Integer,
            default_value: "50",
            min: Some(10),
            max: Some(500),
            choices: Vec::new(),
            sensitive: false,
        });
    proof {
        assert(choice_values(v@[16].choices@) =~= setting_rule(16).choices);
        assert(choice_labels(v@[16].choices@) =~= setting_text(16).choice_labels);
    }
    assert forall|i: int| 0 <= i < 17 implies #[trigger] definition_rule(v@[i]) == setting_rule(i) && definition_text(v@[i])
        == setting_text(i) by {
        if i < 13 {
            assert(v@[i] == old(v)@[i]);
        }
    }
}

fn company_settings(v: &mut Vec<SettingDefinition>)
    requires
        follows_rules(old(v)@, 17),
    ensures
        follows_rules(final(v)@, 23),
{
    v.push(SettingDefinition {
            key: "company.display_name",
            group: "company",
            group_label: "هویت مجموعه",
            label: "نام روی فاکتور و رسید",
            description: "نامی که در سربرگ همه‌ی چاپ‌ها می‌آید. اگر خالی بماند نام شرکت استفاده می‌شود.",
            effect: "سربرگ فاکتور، رسید فروشگاهی، سند حسابداری و برچسب",
            kind: SettingKind::Text,
            default_value: "شرکت نوین پرداز",
            min: None,
            max: None,
            choices: Vec::new(),
            sensitive: false,
        });
    proof {
        assert(choice_values(v@[17].choices@) =~= setting_rule(17).choices);
        assert(choice_labels(v@[17].choices@) =~= setting_text(17).choice_labels);
    }
    v.push(SettingDefinition {
            key: "company.phone",
            group: "company",
            group_label: "هویت مجموعه",
            label: "شماره تماس مجموعه",
            description: "شماره‌ای که زیر نام مجموعه در سربرگ چاپ نمایش داده می‌شود.",
            effect: "سربرگ فاکتور و رسید فروشگاهی",
            kind: SettingKind::Text,
            default_value: "021-00000000",
            min: None,
            max: None,
            choices: Vec::new(),
            sensitive: false,
        });
    proof {
        assert(choice_values(v@[18].choices@) =~= setting_rule(18).choices);
        assert(choice_labels(v@[18].choices@) =~= setting_text(18).choice_labels);
    }
    v.push(SettingDefinition {
            key: "company.address",
            group: "company",
            group_label: "هویت مجموعه",
            label: "نشانی مجموعه",
            description: "نشانی که در پای فاکتور رسمی چاپ می‌شود.",
            effect: "سربرگ فاکتور A4",
            kind: SettingKind::Text,
            default_value: "—",
            min: None,
            max: None,
            choices: Vec::new(),
            sensitive: false,
        });
    proof {
        assert(choice_values(v@[19].choices@) =~= setting_rule(19).choices);
        assert(choice_labels(v@[19].choices@) =~= setting_text(19).choice_labels);
    }
    v.push(SettingDefinition {
            key: "company.economic_code",
            group: "company",
            group_label: "هویت مجموعه",
            label: "کد اقتصادی",
            description: "کد اقتصادی مؤدی؛ در صورتحساب رسمی الزامی است.",
            effect: "سربرگ فاکتور رسمی",
            kind: SettingKind::Text,
            default_value: "—",
            min: None,
            max: None,
            choices: Vec::new(),
            sensitive: false,
        });
    proof {
        assert(choice_values(v@[20].choices@) =~= setting_rule(20).choices);
        assert(choice_labels(v@[20].choices@) =~= setting_text(20).choice_labels);
    }
    v.push(SettingDefinition {
            key: "company.logo",
            group: "company",
            group_label: "هویت مجموعه",
            label: "لوگوی مجموعه",
            description: "تصویر لوگو که در سربرگ چاپ می‌آید. خالی گذاشتن یعنی بدون لوگو.",
            effect: "سربرگ فاکتور، رسید فروشگاهی و برچسب",
            kind: SettingKind::Image,
            default_value: "",
            min: None,
            max: None,
            choices: Vec::new(),
            sensitive: false,
        });
    proof {
        assert(choice_values(v@[21].choices@) =~= setting_rule(21).choices);
        assert(choice_labels(v@[21].choices@) =~= setting_text(21).choice_labels);
    }
    v.push(SettingDefinition {
            key: "user.avatar",
            group: "company",
            group_label: "هویت مجموعه",
            label: "تصویر پروفایل کاربر",
            description: "تصویری که کنار نام کاربر در نوار بالا و منوی کناری دیده می‌شود. خالی یعنی نشان پیش‌فرض طلایی.",
            effect: "نوار بالا و پای منوی کناری",
            kind: SettingKind::Image,
            default_value: "",
            min: None,
            max: None,
            choices: Vec::new(),
            sensitive: false,
        });
    proof {
        assert(choice_values(v@[22].choices@) =~= setting_rule(22).choices);
        assert(choice_labels(v@[22].choices@) =~= setting_text(22).choice_labels);
    }
    assert forall|i: int| 0 <= i < 23 implies #[trigger] definition_rule(v@[i]) == setting_rule(i) && definition_text(v@[i])
        == setting_text(i) by {
        if i < 17 {
            assert(v@[i] == old(v)@[i]);
        }
    }
}

fn hardware_settings(v: &mut Vec<SettingDefinition>)
    requires
        follows_rules(old(v)@, 23),
    ensures
        follows_rules(final(v)@, 27),
{
    v.push(SettingDefinition {
            key: "hardware.barcode_enabled",
            group: "hardware",
            group_label: "سخت‌افزار",
            label: "بارکدخوان فعال باشد",
            description: "با فعال بودن، اسکن بارکد در فرم فاکتور کالا را خودکار به سطرها اضافه می‌کند.",
            effect: "فرم صدور فاکتور — افزودن خودکار کالا با اسکن",
            kind: SettingKind::Boolean,
            default_value: "true",
            min: None,
            max: None,
            choices: Vec::new(),
            sensitive: false,
        });
    proof {
        assert(choice_values(v@[23].choices@) =~= setting_rule(23).choices);
        assert(choice_labels(v@[23].choices@) =~= setting_text(23).choice_labels);
    }
    v.push(SettingDefinition {
            key: "hardware.barcode_min_length",
            group: "hardware",
            group_label: "سخت‌افزار",
            label: "حداقل طول بارکد",
            description: "رشته‌ی کوتاه‌تر از این، تایپ دستی فرض می‌شود نه اسکن.",
            effect: "تشخیص اسکن از تایپ در فرم فاکتور",
            kind: SettingKind::Integer,
            default_value: "6",
            min: Some(3),
            max: Some(40),
            choices: Vec::new(),
            sensitive: false,
        });
    proof {
        assert(choice_values(v@[24].choices@) =~= setting_rule(24).choices);
        assert(choice_labels(v@[24].choices@) =~= setting_text(24).choice_labels);
    }
    v.push(SettingDefinition {
            key: "hardware.barcode_max_gap_ms",
            group: "hardware",
            group_label: "سخت‌افزار",
            label: "بیشترین فاصله‌ی دو کاراکتر (میلی‌ثانیه)",
            description: "بارکدخوان کاراکترها را بسیار سریع می‌فرستد. فاصله‌ی بیشتر از این یعنی انسان تایپ می‌کند.",
            effect: "تشخیص اسکن از تایپ در فرم فاکتور",
            kind: SettingKind::Integer,
            default_value: "60",
            min: Some(15),
            max: Some(300),
            choices: Vec::new(),
            sensitive: false,
        });
    proof {
        assert(choice_values(v@[25].choices@) =~= setting_rule(25).choices);
        assert(choice_labels(v@[25].choices@) =~= setting_text(25).choice_labels);
    }
    v.push(SettingDefinition {
            key: "hardware.barcode_suffix",
            group: "hardware",
            group_label: "سخت‌افزار",
            label: "کاراکتر پایان اسکن",
            description: "اغلب بارکدخوان‌ها بعد از بارکد یک Enter می‌فرستند. اگر دستگاه شما Tab می‌فرستد اینجا عوض کنید.",
            effect: "تشخیص پایان اسکن در فرم فاکتور",
            kind: SettingKind::Choice,
            default_value: "enter",
            min: None,
            max: None,
            choices: vec![
                choice("enter", "Enter (پیش‌فرض اغلب دستگاه‌ها)"),
                choice("tab", "Tab"),
                choice("none", "بدون کاراکتر پایان — تشخیص با زمان"),
            ],
            sensitive: false,
        });
    proof {
        assert(choice_values(v@[26].choices@) =~= setting_rule(26).choices);
        assert(choice_labels(v@[26].choices@) =~= setting_text(26).choice_labels);
    }
    assert forall|i: int| 0 <= i < 27 implies #[trigger] definition_rule(v@[i]) == setting_rule(i) && definition_text(v@[i])
        == setting_text(i) by {
        if i < 23 {
            assert(v@[i] == old(v)@[i]);
        }
    }
}

fn printing_settings(v: &mut Vec<SettingDefinition>)
    requires
        follows_rules(old(v)@, 27),
    ensures
        follows_rules(final(v)@, 30),
{
    v.push(SettingDefinition {
            key: "printing.receipt_paper",
            group: "printing",
            group_label: "چاپ",
            label: "عرض کاغذ رسید فروشگاهی",
            description: "پرینترهای حرارتی معمولاً ۸۰ یا ۵۸ میلی‌متری‌اند.",
            effect: "اندازه‌ی صفحه در چاپ رسید فروشگاهی",
            kind: SettingKind::Choice,
            default_value: "80mm",
            min: None,
            max: None,
            choices: vec![
                choice("80mm", "۸۰ میلی‌متر (رایج‌ترین)"),
                choice("58mm", "۵۸ میلی‌متر"),
            ],
            sensitive: false,
        });
    proof {
        assert(choice_values(v@[27].choices@) =~= setting_rule(27).choices);
        assert(choice_labels(v@[27].choices@) =~= setting_text(27).choice_labels);
    }
    v.push(SettingDefinition {
            key: "printing.footer_note",
            group: "printing",
            group_label: "چاپ",
            label: "پیام پایین رسید",
            description: "جمله‌ای که انتهای هر رسید فروشگاهی چاپ می‌شود.",
            effect: "پاورقی رسید فروشگاهی",
            kind: SettingKind::Text,
            default_value: "از خرید شما سپاسگزاریم",
            min: None,
            max: None,
            choices: Vec::new(),
            sensitive: false,
        });
    proof {
        assert(choice_values(v@[28].choices@) =~= setting_rule(28).choices);
        assert(choice_labels(v@[28].choices@) =~= setting_text(28).choice_labels);
    }
    v.push(SettingDefinition {
            key: "printing.copies",
            group: "printing",
            group_label: "چاپ",
            label: "تعداد نسخه‌ی پیش‌فرض",
            description: "چند نسخه از هر فاکتور یک‌جا چاپ شود (مثلاً نسخه‌ی مشتری و نسخه‌ی حسابداری).",
            effect: "چاپ فاکتور و رسید",
            kind: SettingKind::Integer,
            default_value: "1",
            min: Some(1),
            max: Some(5),
            choices: Vec::new(),
            sensitive: false,
        });
    proof {
        assert(choice_values(v@[29].choices@) =~= setting_rule(29).choices);
        assert(choice_labels(v@[29].choices@) =~= setting_text(29).choice_labels);
    }
    assert forall|i: int| 0 <= i < 30 implies #[trigger] definition_rule(v@[i]) == setting_rule(i) && definition_text(v@[i])
        == setting_text(i) by {
        if i < 27 {
            assert(v@[i] == old(v)@[i]);
        }
    }
}

/// The registry of settings. Every entry is read somewhere in the host; its
/// `effect` says where.
pub fn registry() -> (r: Vec<SettingDefinition>)
    ensures
        follows_rules(r@, setting_count()),
{
    let mut v: Vec<SettingDefinition> = Vec::new();
    inventory_settings(&mut v);
    sales_settings(&mut v);
    treasury_settings(&mut v);
    parties_settings(&mut v);
    production_settings(&mut v);
    accounting_settings(&mut v);
    appearance_settings(&mut v);
    company_settings(&mut v);
    hardware_settings(&mut v);
    printing_settings(&mut v);
    v
}


/// Whether every width lies between one and six and there is at least one.
fn widths_ok(ws: &Vec<u8>) -> (r: bool)
    ensures
        r == coding_widths_ok(ws@),
{
    if ws.len() == 0 {
        return false;
    }
    let mut i: usize = 0;
    while i < ws.len()
        invariant
            0 <= i <= ws@.len(),
            forall|j: int| 0 <= j < i ==> 1 <= #[trigger] ws@[j] <= 6,
        decreases ws@.len() - i,
    {
        if ws[i] == 0 || ws[i] > 6 {
            return false;
        }
        i = i + 1;
    }
    true
}

/// Checks a submitted value against its setting and gives back the value to
/// store; an invalid value is never stored.
pub fn validate(definition: &SettingDefinition, value: &str) -> (r: Result<String, SettingError>)
    ensures
        text_result(r) == validate_rule(definition_rule(*definition), value@),
{
    let t = trim(value);
    let v = chars_of(t);
    let n = v.len();
    proof {
        assert(v@.subrange(0, n as int) =~= v@);
    }
    match definition.kind {
        SettingKind::Boolean => {
            if lower_matches(&v, 0, n, "true") || lower_matches(&v, 0, n, "1") || lower_matches(
                &v,
                0,
                n,
                "yes",
            ) || lower_matches(&v, 0, n, "on") {
                Ok(String::from_str("true"))
            } else if lower_matches(&v, 0, n, "false") || lower_matches(&v, 0, n, "0")
                || lower_matches(&v, 0, n, "no") || lower_matches(&v, 0, n, "off") {
                Ok(String::from_str("false"))
            } else {
                Err(SettingError::NotBoolean)
            }
        },
        SettingKind::Integer => match parse_i64_in(&v, 0, n) {
            None => Err(SettingError::NotInteger),
            Some(x) => {
                if let Some(lo) = definition.min {
                    if x < lo {
                        return Err(SettingError::BelowMinimum(lo));
                    }
                }
                if let Some(hi) = definition.max {
                    if x > hi {
                        return Err(SettingError::AboveMaximum(hi));
                    }
                }
                Ok(int_text(x))
            },
        },
        SettingKind::Choice => {
            let ghost values = choice_values(definition.choices@);
            let mut i: usize = 0;
            while i < definition.choices.len()
                invariant
                    0 <= i <= definition.choices@.len(),
                    values == choice_values(definition.choices@),
                    definition.kind == SettingKind::Choice,
                    t@ == trim_seq(value@),
                    forall|j: int| 0 <= j < i ==> values[j] != t@,
                decreases definition.choices@.len() - i,
            {
                if same_text(definition.choices[i].value, t) {
                    proof {
                        assert(values[i as int] == t@);
                        assert(values.contains(t@));
                    }
                    return Ok(owned(t));
                }
                i = i + 1;
            }
            proof {
                assert(!values.contains(t@));
            }
            Err(SettingError::UnknownChoice)
        },
        SettingKind::Image => {
            if n == 0 {
                proof {
                    assert(t@ =~= Seq::<char>::empty());
                }
                Ok(String::new())
            } else if !(starts_with_in(&v, 0, n, "data:image/") && contains_in(&v, 0, n, ";base64,")) {
                Err(SettingError::NotImage)
            } else if t.as_bytes().len() > 1_400_000 {
                Err(SettingError::ImageTooLarge)
            } else {
                Ok(owned(t))
            }
        },
        SettingKind::Text => {
            if n == 0 {
                Err(SettingError::Empty)
            } else if same_text(definition.key, "coding.level_widths") {
                match comma_u8_list_in(&v, 0, n) {
                    None => Err(SettingError::BadCodingList),
                    Some(ws) => if widths_ok(&ws) {
                        Ok(owned(t))
                    } else {
                        Err(SettingError::BadCodingWidth)
                    },
                }
            } else {
                Ok(owned(t))
            }
        },
    }
}

/// The registered definition of `key`: the first entry of the registry
/// with that key, or `None` where the key is not registered.
pub fn find_definition(key: &str) -> (r: Option<SettingDefinition>)
    ensures
        match first_rule_from(key@, 0) {
            Some(i) => r matches Some(d) && definition_rule(d) == setting_rule(i) && definition_text(d)
                == setting_text(i),
            None => r is None,
        },
{
    let mut defs = registry();
    let mut i: usize = 0;
    while i < defs.len()
        invariant
            0 <= i <= defs@.len(),
            follows_rules(defs@, setting_count()),
            first_rule_from(key@, 0) == first_rule_from(key@, i as int),
        decreases defs@.len() - i,
    {
        proof {
            assert(definition_rule(defs@[i as int]) == setting_rule(i as int));
        }
        if same_text(defs[i].key, key) {
            let d = defs.remove(i);
            return Some(d);
        }
        i = i + 1;
    }
    None
}

/// An optional `String`, by its characters.
pub open spec fn opt_text(o: Option<String>) -> Option<Seq<char>> {
    match o {
        Some(s) => Some(s@),
        None => None,
    }
}

/// The value of a setting: the stored one, else the registry's default, else
/// the empty text for a key the registry does not know.
pub open spec fn stored_or_default(key: Seq<char>, stored: Option<Seq<char>>) -> Seq<char> {
    match stored {
        Some(s) => s,
        None => match rule_for(key) {
            Some(r) => r.default,
            None => Seq::empty(),
        },
    }
}

/// `v` raised to `min` and then lowered to `max`, where they are set.
pub open spec fn clamp_to(v: i64, min: Option<i64>, max: Option<i64>) -> i64 {
    let a = if min is Some && v < min->0 {
        min->0
    } else {
        v
    };
    if max is Some && a > max->0 {
        max->0
    } else {
        a
    }
}

/// The integer value of a setting: the stored text read as an integer, else
/// the default read as one (else zero), kept within the setting's bounds.
pub open spec fn integer_value(key: Seq<char>, stored: Option<Seq<char>>) -> i64 {
    let parsed = parse_i64_spec(trim_seq(stored_or_default(key, stored)));
    match rule_for(key) {
        Some(r) => {
            let fallback = match parse_i64_spec(r.default) {
                Some(x) => x,
                None => 0,
            };
            clamp_to(
                match parsed {
                    Some(x) => x,
                    None => fallback,
                },
                r.min,
                r.max,
            )
        },
        None => match parsed {
            Some(x) => x,
            None => 0,
        },
    }
}

/// Reads a setting, with the registry's default where nothing is stored.
/// `stored` is what the settings table holds for the key.
pub fn read_setting(key: &str, stored: Option<String>) -> (r: String)
    ensures
        r@ == stored_or_default(key@, opt_text(stored)),
{
    match stored {
        Some(s) => s,
        None => match find_definition(key) {
            Some(d) => owned(d.default_value),
            None => String::new(),
        },
    }
}

/// Reads an integer setting, kept within the bounds the registry gives.
pub fn read_integer(key: &str, stored: Option<String>) -> (r: i64)
    ensures
        r == integer_value(key@, opt_text(stored)),
{
    let raw = read_setting(key, stored);
    let parsed = parse_i64(trim(raw.as_str()));
    let definition = find_definition(key);
    match definition {
        Some(d) => {
            let fallback = match parse_i64(d.default_value) {
                Some(x) => x,
                None => 0,
            };
            let value = match parsed {
                Some(x) => x,
                None => fallback,
            };
            let raised = match d.min {
                Some(lo) => if value < lo {
                    lo
                } else {
                    value
                },
                None => value,
            };
            match d.max {
                Some(hi) => if raised > hi {
                    hi
                } else {
                    raised
                },
                None => raised,
            }
        },
        None => match parsed {
            Some(x) => x,
            None => 0,
        },
    }
}

/// Reads a yes/no setting: `true`, `1`, `yes` or `on`, in any ASCII case,
/// read as yes; anything else as no.
pub fn read_boolean(key: &str, stored: Option<String>) -> (r: bool)
    ensures
        r == is_true_word(trim_seq(stored_or_default(key@, opt_text(stored)))),
{
    let raw = read_setting(key, stored);
    let v = chars_of(trim(raw.as_str()));
    let n = v.len();
    proof {
        assert(v@.subrange(0, n as int) =~= v@);
    }
    lower_matches(&v, 0, n, "true") || lower_matches(&v, 0, n, "1") || lower_matches(&v, 0, n, "yes")
        || lower_matches(&v, 0, n, "on")
}

/// A setting with its current value: the stored one, else the default; it
/// counts as customised where a stored value differs from the default.
pub fn setting_with_value(definition: SettingDefinition, stored: Option<String>) -> (r: SettingWithValue)
    ensures
        r.definition == definition,
        r.value@ == (match stored {
            Some(s) => s@,
            None => definition.default_value@,
        }),
        r.is_customized == (match stored {
            Some(s) => s@ != definition.default_value@,
            None => false,
        }),
{
    match stored {
        Some(s) => {
            let is_customized = !same_text(s.as_str(), definition.default_value);
            SettingWithValue { definition, value: s, is_customized }
        },
        None => {
            let value = owned(definition.default_value);
            SettingWithValue { definition, value, is_customized: false }
        },
    }
}

/// The permission that changing a setting needs beyond being logged in: a
/// sensitive setting changes financial behaviour and needs a manager's.
pub fn required_permission(definition: &SettingDefinition) -> (r: Option<&'static str>)
    ensures
        r is Some <==> definition.sensitive,
        r matches Some(p) ==> p@ == "accounting.journal.create"@,
{
    if definition.sensitive {
        Some("accounting.journal.create")
    } else {
        None
    }
}


proof fn lemma_yes_no_words()
    ensures
        trim_seq("true"@) == "true"@,
        trim_seq("false"@) == "false"@,
        is_true_word("true"@),
        !is_true_word("false"@),
        is_false_word("false"@),
{
    reveal_strlit("true");
    reveal_strlit("false");
    reveal_strlit("1");
    reveal_strlit("yes");
    reveal_strlit("on");
    lemma_trim_fixed("true"@);
    lemma_trim_fixed("false"@);
}

/// Validation normalises: the value it stores for an accepted input is
/// accepted in turn and stored unchanged.
pub proof fn lemma_validate_idempotent(r: SettingRule, value: Seq<char>)
    ensures
        validate_rule(r, value) matches Ok(n) ==> validate_rule(r, n) == Ok::<Seq<char>, SettingError>(n),
{
    let t = trim_seq(value);
    lemma_trim_idempotent(value);
    match r.kind {
        SettingKind::Boolean => {
            lemma_yes_no_words();
        },
        SettingKind::Integer => {
            if let Some(x) = parse_i64_spec(t) {
                lemma_decimal_text_roundtrip(x);
            }
        },
        _ => {},
    }
}

/// What is read back of a saved setting is what was saved: the stored text
/// for any setting, the saved number for an integer setting, and the saved
/// yes or no for a yes/no setting.
pub proof fn lemma_read_after_write(key: Seq<char>, value: Seq<char>)
    requires
        rule_for(key) is Some,
    ensures
        validate_rule(rule_for(key)->0, value) matches Ok(n) ==> {
            &&& stored_or_default(key, Some(n)) == n
            &&& (rule_for(key)->0.kind == SettingKind::Integer ==> integer_value(key, Some(n)) == parse_i64_spec(
                trim_seq(value),
            )->0)
            &&& (rule_for(key)->0.kind == SettingKind::Boolean ==> is_true_word(trim_seq(n)) == is_true_word(
                trim_seq(value),
            ))
        },
{
    let r = rule_for(key)->0;
    let t = trim_seq(value);
    match r.kind {
        SettingKind::Boolean => {
            lemma_yes_no_words();
        },
        SettingKind::Integer => {
            if let Some(x) = parse_i64_spec(t) {
                lemma_decimal_text_roundtrip(x);
            }
        },
        _ => {},
    }
}

/// The index that `first_rule_from` finds lies in the registry and carries
/// the key.
proof fn lemma_first_rule_in_range(key: Seq<char>, j: int)
    ensures
        first_rule_from(key, j) matches Some(i) ==> j <= i < setting_count() && setting_rule(i).key == key,
    decreases setting_count() - j,
{
    if 0 <= j < setting_count() && setting_rule(j).key != key {
        lemma_first_rule_in_range(key, j + 1);
    }
}

/// Every integer setting of the registry has both bounds, the lower one not
/// above the upper one.
proof fn lemma_integer_rules_bounded(i: int)
    requires
        0 <= i < setting_count(),
        setting_rule(i).kind == SettingKind::Integer,
    ensures
        setting_rule(i).min is Some,
        setting_rule(i).max is Some,
        setting_rule(i).min->0 <= setting_rule(i).max->0,
{
}

/// An integer setting is always read within its registered bounds, whatever
/// the settings table holds.
pub proof fn lemma_integer_within_bounds(key: Seq<char>, stored: Option<Seq<char>>)
    requires
        rule_for(key) matches Some(r) && r.kind == SettingKind::Integer,
    ensures
        rule_for(key)->0.min->0 <= integer_value(key, stored) <= rule_for(key)->0.max->0,
{
    lemma_first_rule_in_range(key, 0);
    let i = first_rule_from(key, 0)->0;
    lemma_integer_rules_bounded(i);
}

proof fn lemma_single_digit(c: char)
    requires
        '0' <= c <= '9',
    ensures
        trim_seq(seq![c]) == seq![c],
        parse_u8_spec(seq![c]) == Some(((c as u32) - ('0' as u32)) as u8),
        parse_i64_spec(seq![c]) == Some(((c as u32) - ('0' as u32)) as i64),
{
    let s = seq![c];
    lemma_trim_fixed(s);
    assert(s.drop_last() =~= Seq::<char>::empty());
    assert(digits_value(Seq::<char>::empty()) == 0);
    assert(all_digits(s));
}

proof fn lemma_coding_default()
    ensures
        comma_u8_list("1,2,2,2"@) == Some(seq![1u8, 2u8, 2u8, 2u8]),
{
    reveal_strlit("1,2,2,2");
    let s = "1,2,2,2"@;
    assert(s =~= seq!['1', ',', '2', ',', '2', ',', '2']);
    let e = Seq::<char>::empty();
    assert(s.take(1).drop_last() =~= e);
    assert(split_seq(e, ',') == seq![e]);
    assert(split_seq(s.take(1), ',') =~= seq![seq!['1']]);
    assert(s.take(2).drop_last() =~= s.take(1));
    assert(split_seq(s.take(2), ',') =~= seq![seq!['1'], e]);
    assert(s.take(3).drop_last() =~= s.take(2));
    assert(split_seq(s.take(3), ',') =~= seq![seq!['1'], seq!['2']]);
    assert(s.take(4).drop_last() =~= s.take(3));
    assert(split_seq(s.take(4), ',') =~= seq![seq!['1'], seq!['2'], e]);
    assert(s.take(5).drop_last() =~= s.take(4));
    assert(split_seq(s.take(5), ',') =~= seq![seq!['1'], seq!['2'], seq!['2']]);
    assert(s.take(6).drop_last() =~= s.take(5));
    assert(split_seq(s.take(6), ',') =~= seq![seq!['1'], seq!['2'], seq!['2'], e]);
    assert(s.take(7).drop_last() =~= s.take(6));
    assert(s.take(7) =~= s);
    let p = seq![seq!['1'], seq!['2'], seq!['2'], seq!['2']];
    assert(split_seq(s, ',') =~= p);
    lemma_single_digit('1');
    lemma_single_digit('2');
    assert(p.drop_last().drop_last().drop_last().drop_last() =~= Seq::<Seq<char>>::empty());
    assert(parse_u8_spec(trim_seq(seq!['1'])) == Some(1u8));
    assert(parse_u8_spec(trim_seq(seq!['2'])) == Some(2u8));
    assert(parse_pieces_u8(Seq::<Seq<char>>::empty()) == Some(Seq::<u8>::empty()));
    assert(parse_pieces_u8(p.take(1)) == Some(seq![1u8])) by {
        assert(p.take(1).drop_last() =~= Seq::<Seq<char>>::empty());
        assert(p.take(1).last() == seq!['1']);
        assert(Seq::<u8>::empty().push(1u8) =~= seq![1u8]);
    }
    assert(parse_pieces_u8(p.take(2)) == Some(seq![1u8, 2u8])) by {
        assert(p.take(2).drop_last() =~= p.take(1));
        assert(p.take(2).last() == seq!['2']);
        assert(seq![1u8].push(2u8) =~= seq![1u8, 2u8]);
    }
    assert(parse_pieces_u8(p.take(3)) == Some(seq![1u8, 2u8, 2u8])) by {
        assert(p.take(3).drop_last() =~= p.take(2));
        assert(p.take(3).last() == seq!['2']);
        assert(seq![1u8, 2u8].push(2u8) =~= seq![1u8, 2u8, 2u8]);
    }
    assert(parse_pieces_u8(p) == Some(seq![1u8, 2u8, 2u8, 2u8])) by {
        assert(p.drop_last() =~= p.take(3));
        assert(seq![1u8, 2u8, 2u8].push(2u8) =~= seq![1u8, 2u8, 2u8, 2u8]);
    }
}


/// The digits of a number below a thousand, spelled out.
proof fn lemma_small_number_text(n: nat)
    requires
        n < 1000,
    ensures
        n < 10 ==> digits_text(n) == seq![digit_char(n)],
        10 <= n < 100 ==> digits_text(n) == seq![digit_char(n / 10), digit_char(n % 10)],
        100 <= n ==> digits_text(n) == seq![digit_char(n / 100), digit_char((n / 10) % 10), digit_char(n % 10)],
{
    if n >= 10 {
        assert(digits_text(n) == digits_text(n / 10).push(digit_char(n % 10)));
        if n >= 100 {
            assert(digits_text(n / 10) == digits_text(n / 100).push(digit_char((n / 10) % 10)));
            assert((n / 10) / 10 == n / 100);
        }
    }
}

/// A text setting other than the coding scheme accepts any non-blank text
/// that is its own trim, unchanged.
proof fn lemma_plain_text_valid(r: SettingRule)
    requires
        r.kind == SettingKind::Text,
        r.key != "coding.level_widths"@,
        r.default.len() > 0,
        trim_seq(r.default) == r.default,
    ensures
        validate_rule(r, r.default) == Ok::<Seq<char>, SettingError>(r.default),
{
}

/// Every registered default is accepted by its own setting and stored as it
/// is, so resetting a setting to its default always succeeds.
#[verifier::rlimit(50)]
pub proof fn lemma_default_is_valid(i: int)
    requires
        0 <= i < setting_count(),
    ensures
        validate_rule(setting_rule(i), setting_rule(i).default) == Ok::<Seq<char>, SettingError>(setting_rule(i).default),
{
    if i == 0 {
        reveal_strlit("weighted_average");
        lemma_trim_fixed("weighted_average"@);
        assert(setting_rule(i).choices.contains("weighted_average"@)) by { assert(setting_rule(i).choices[0] == "weighted_average"@ || setting_rule(i).choices.len() > 0); }
    } else if i == 1 {
        reveal_strlit("5");
        lemma_small_number_text(5);
        assert("5"@ =~= decimal_text(5));
        lemma_decimal_text_roundtrip(5i64);
    } else if i == 2 {
        reveal_strlit("5");
        lemma_small_number_text(5);
        assert("5"@ =~= decimal_text(5));
        lemma_decimal_text_roundtrip(5i64);
    } else if i == 3 {
        lemma_yes_no_words();
    } else if i == 4 {
        reveal_strlit("900");
        lemma_small_number_text(900);
        assert("900"@ =~= decimal_text(900));
        lemma_decimal_text_roundtrip(900i64);
    } else if i == 5 {
        reveal_strlit("30");
        lemma_small_number_text(30);
        assert("30"@ =~= decimal_text(30));
        lemma_decimal_text_roundtrip(30i64);
    } else if i == 6 {
        reveal_strlit("warn");
        lemma_trim_fixed("warn"@);
        assert(setting_rule(i).choices.contains("warn"@)) by { assert(setting_rule(i).choices[0] == "warn"@ || setting_rule(i).choices.len() > 0); }
    } else if i == 7 {
        reveal_strlit("7");
        lemma_small_number_text(7);
        assert("7"@ =~= decimal_text(7));
        lemma_decimal_text_roundtrip(7i64);
    } else if i == 8 {
        lemma_yes_no_words();
    } else if i == 9 {
        lemma_yes_no_words();
    } else if i == 10 {
        reveal_strlit("by_quantity");
        lemma_trim_fixed("by_quantity"@);
        assert(setting_rule(i).choices.contains("by_quantity"@)) by { assert(setting_rule(i).choices[0] == "by_quantity"@ || setting_rule(i).choices.len() > 0); }
    } else if i == 11 {
        lemma_yes_no_words();
    } else if i == 12 {
        reveal_strlit("1,2,2,2");
        lemma_trim_fixed("1,2,2,2"@);
        lemma_coding_default();
        assert(coding_widths_ok(seq![1u8, 2u8, 2u8, 2u8]));
    } else if i == 13 {
        reveal_strlit("fa");
        lemma_trim_fixed("fa"@);
        assert(setting_rule(i).choices.contains("fa"@)) by { assert(setting_rule(i).choices[0] == "fa"@ || setting_rule(i).choices.len() > 0); }
    } else if i == 14 {
        lemma_yes_no_words();
    } else if i == 15 {
        lemma_yes_no_words();
    } else if i == 16 {
        reveal_strlit("50");
        lemma_small_number_text(50);
        assert("50"@ =~= decimal_text(50));
        lemma_decimal_text_roundtrip(50i64);
    } else if i == 17 {
        reveal_strlit("company.display_name");
        reveal_strlit("coding.level_widths");
        assert("company.display_name"@.len() != "coding.level_widths"@.len());
        reveal_strlit("شرکت نوین پرداز");
        lemma_trim_fixed("شرکت نوین پرداز"@);
        lemma_plain_text_valid(setting_rule(i));
    } else if i == 18 {
        reveal_strlit("company.phone");
        reveal_strlit("coding.level_widths");
        assert("company.phone"@.len() != "coding.level_widths"@.len());
        reveal_strlit("021-00000000");
        lemma_trim_fixed("021-00000000"@);
        lemma_plain_text_valid(setting_rule(i));
    } else if i == 19 {
        reveal_strlit("company.address");
        reveal_strlit("coding.level_widths");
        assert("company.address"@.len() != "coding.level_widths"@.len());
        reveal_strlit("—");
        lemma_trim_fixed("—"@);
        lemma_plain_text_valid(setting_rule(i));
    } else if i == 20 {
        reveal_strlit("company.economic_code");
        reveal_strlit("coding.level_widths");
        assert("company.economic_code"@.len() != "coding.level_widths"@.len());
        reveal_strlit("—");
        lemma_trim_fixed("—"@);
        lemma_plain_text_valid(setting_rule(i));
    } else if i == 21 {
        reveal_strlit("");
        assert(trim_seq(""@) =~= ""@);
    } else if i == 22 {
        reveal_strlit("");
        assert(trim_seq(""@) =~= ""@);
    } else if i == 23 {
        lemma_yes_no_words();
    } else if i == 24 {
        reveal_strlit("6");
        lemma_small_number_text(6);
        assert("6"@ =~= decimal_text(6));
        lemma_decimal_text_roundtrip(6i64);
    } else if i == 25 {
        reveal_strlit("60");
        lemma_small_number_text(60);
        assert("60"@ =~= decimal_text(60));
        lemma_decimal_text_roundtrip(60i64);
    } else if i == 26 {
        reveal_strlit("enter");
        lemma_trim_fixed("enter"@);
        assert(setting_rule(i).choices.contains("enter"@)) by { assert(setting_rule(i).choices[0] == "enter"@ || setting_rule(i).choices.len() > 0); }
    } else if i == 27 {
        reveal_strlit("80mm");
        lemma_trim_fixed("80mm"@);
        assert(setting_rule(i).choices.contains("80mm"@)) by { assert(setting_rule(i).choices[0] == "80mm"@ || setting_rule(i).choices.len() > 0); }
    } else if i == 28 {
        reveal_strlit("printing.footer_note");
        reveal_strlit("coding.level_widths");
        assert("printing.footer_note"@.len() != "coding.level_widths"@.len());
        reveal_strlit("از خرید شما سپاسگزاریم");
        lemma_trim_fixed("از خرید شما سپاسگزاریم"@);
        lemma_plain_text_valid(setting_rule(i));
    } else if i == 29 {
        reveal_strlit("1");
        lemma_small_number_text(1);
        assert("1"@ =~= decimal_text(1));
        lemma_decimal_text_roundtrip(1i64);
    }
}

} // verus!
