use crate::extract::opt_view;
use vstd::prelude::*;
use vstd::string::*;

verus! {

/// One `<input>` of a form: its `name`, `value` and `type` attributes.
pub struct FormInput {
    pub name: Option<String>,
    pub value: Option<String>,
    pub kind: Option<String>,
}

pub open spec fn input_view(i: FormInput) -> (Option<Seq<char>>, Option<Seq<char>>, Option<Seq<char>>) {
    (opt_view(i.name), opt_view(i.value), opt_view(i.kind))
}

pub open spec fn inputs_view(v: Seq<FormInput>) -> Seq<(Option<Seq<char>>, Option<Seq<char>>, Option<Seq<char>>)> {
    v.map_values(|i: FormInput| input_view(i))
}

/// The inputs of `page` that `selector` picks, in document order; `None`
/// where the selector does not parse.
pub uninterp spec fn selected_inputs_of(page: Seq<char>, selector: Seq<char>) -> Option<
    Seq<(Option<Seq<char>>, Option<Seq<char>>, Option<Seq<char>>)>,
>;

/// Relies on scraper::Selector::parse, Html::parse_document and Html::select:
/// the attributes of each selected element, which depend on the two texts alone.
#[verifier::external_body]
fn select_inputs(page: &str, selector: &str) -> (r: Option<Vec<FormInput>>)
    ensures
        match r {
            Some(v) => selected_inputs_of(page@, selector@) == Some(inputs_view(v@)),
            None => selected_inputs_of(page@, selector@) == None::<
                Seq<(Option<Seq<char>>, Option<Seq<char>>, Option<Seq<char>>)>,
            >,
        },
{
    let sel = scraper::Selector::parse(selector).ok()?;
    let doc = scraper::Html::parse_document(page);
    Some(doc.select(&sel).map(|e| FormInput {
        name: e.value().attr("name").map(String::from),
        value: e.value().attr("value").map(String::from),
        kind: e.value().attr("type").map(String::from),
    }).collect())
}

/// `t` is "hidden" up to ASCII case.
pub open spec fn is_hidden_kind(t: Seq<char>) -> bool {
    t.len() == 6 && forall|i: int| 0 <= i < 6 ==> #[trigger] t[i] == "hidden"@[i] || t[i] == "HIDDEN"@[i]
}

fn hidden_kind(kind: &Option<String>) -> (r: bool)
    ensures
        r == match opt_view(*kind) {
            Some(t) => is_hidden_kind(t),
            None => false,
        },
{
    proof {
        reveal_strlit("hidden");
        reveal_strlit("HIDDEN");
    }
    match kind {
        None => false,
        Some(owned) => {
            let t = owned.as_str();
            assert(t@ == owned@);
            if t.unicode_len() != 6 {
                return false;
            }
            let lower = "hidden";
            let upper = "HIDDEN";
            let mut i: usize = 0;
            while i < 6
                invariant
                    t@.len() == 6,
                    opt_view(*kind) == Some(t@),
                    lower@ == "hidden"@,
                    upper@ == "HIDDEN"@,
                    lower@.len() == 6,
                    upper@.len() == 6,
                    0 <= i <= 6,
                    forall|k: int| 0 <= k < i ==> #[trigger] t@[k] == lower@[k] || t@[k] == upper@[k],
                decreases 6 - i,
            {
                let c = t.get_char(i);
                if c != lower.get_char(i) && c != upper.get_char(i) {
                    assert(!(t@[i as int] == "hidden"@[i as int] || t@[i as int] == "HIDDEN"@[i as int]));
                    return false;
                }
                i = i + 1;
            }
            true
        },
    }
}

/// The hidden fields of a form, by name, a later one replacing an earlier
/// one of the same name; a field without `value` is empty.
pub open spec fn hidden_fields(inputs: Seq<(Option<Seq<char>>, Option<Seq<char>>, Option<Seq<char>>)>) -> Map<
    Seq<char>,
    Seq<char>,
>
    decreases inputs.len(),
{
    if inputs.len() == 0 {
        Map::empty()
    } else {
        let m = hidden_fields(inputs.drop_last());
        let (name, value, kind) = inputs.last();
        if name is Some && kind is Some && is_hidden_kind(kind->Some_0) {
            m.insert(name->Some_0, if value is Some { value->Some_0 } else { Seq::empty() })
        } else {
            m
        }
    }
}

/// What the login form posts: its hidden fields, with the credentials over them.
pub open spec fn login_fields(
    inputs: Seq<(Option<Seq<char>>, Option<Seq<char>>, Option<Seq<char>>)>,
    username: Seq<char>,
    password: Seq<char>,
) -> Map<Seq<char>, Seq<char>> {
    hidden_fields(inputs).insert("username"@, username).insert("password"@, password)
}

/// The pairs hold each name once and give exactly the map `m`.
pub open spec fn represents(pairs: Seq<(String, String)>, m: Map<Seq<char>, Seq<char>>) -> bool {
    &&& forall|i: int, j: int| 0 <= i < j < pairs.len() ==> pairs[i].0@ != pairs[j].0@
    &&& forall|i: int| 0 <= i < pairs.len() ==> m.contains_key(#[trigger] pairs[i].0@) && m[pairs[i].0@] == pairs[i].1@
    &&& forall|k: Seq<char>| #[trigger] m.contains_key(k) ==> exists|i: int| 0 <= i < pairs.len() && pairs[i].0@ == k
}

fn set_field(fields: &mut Vec<(String, String)>, name: String, value: String, Ghost(m): Ghost<Map<Seq<char>, Seq<char>>>)
    requires
        represents(old(fields)@, m),
    ensures
        represents(final(fields)@, m.insert(name@, value@)),
{
    let mut i: usize = 0;
    while i < fields.len()
        invariant
            0 <= i <= fields@.len(),
            fields@ == old(fields)@,
            represents(fields@, m),
            forall|k: int| 0 <= k < i ==> fields@[k].0@ != name@,
        decreases fields@.len() - i,
    {
        if fields[i].0.eq(&name) {
            let ghost before = fields@;
            fields[i] = (name, value);
            proof {
                let m2 = m.insert(name@, value@);
                assert(fields@ == before.update(i as int, (name, value)));
                assert forall|k: Seq<char>| #[trigger] m2.contains_key(k) implies exists|j: int|
                    0 <= j < fields@.len() && fields@[j].0@ == k by {
                    if k != name@ {
                        let j = choose|j: int| 0 <= j < before.len() && before[j].0@ == k;
                        assert(fields@[j].0@ == k);
                    } else {
                        assert(fields@[i as int].0@ == k);
                    }
                }
            }
            return;
        }
        i = i + 1;
    }
    let ghost before = fields@;
    fields.push((name, value));
    proof {
        let m2 = m.insert(name@, value@);
        assert forall|k: Seq<char>| #[trigger] m2.contains_key(k) implies exists|j: int|
            0 <= j < fields@.len() && fields@[j].0@ == k by {
            if k != name@ {
                let j = choose|j: int| 0 <= j < before.len() && before[j].0@ == k;
                assert(fields@[j].0@ == k);
            } else {
                assert(fields@[before.len() as int].0@ == k);
            }
        }
        assert forall|a: int| 0 <= a < fields@.len() implies m2.contains_key(#[trigger] fields@[a].0@)
            && m2[fields@[a].0@] == fields@[a].1@ by {
            if a < before.len() {
                assert(fields@[a] == before[a]);
            }
        }
    }
}

/// The fields that the login form posts: every hidden input by name (the
/// anti-forgery tokens the form carries), then the username and password.
pub fn login_form(inputs: &Vec<FormInput>, username: &str, password: &str) -> (r: Vec<(String, String)>)
    ensures
        represents(r@, login_fields(inputs_view(inputs@), username@, password@)),
{
    let ghost iv = inputs_view(inputs@);
    let mut fields: Vec<(String, String)> = Vec::new();
    let mut i: usize = 0;
    while i < inputs.len()
        invariant
            0 <= i <= inputs@.len(),
            iv == inputs_view(inputs@),
            represents(fields@, hidden_fields(iv.take(i as int))),
        decreases inputs@.len() - i,
    {
        let input = &inputs[i];
        assert(iv.take(i as int + 1).drop_last() =~= iv.take(i as int));
        assert(iv.take(i as int + 1).last() == input_view(*input));
        let hidden = hidden_kind(&input.kind);
        match &input.name {
            Some(n) => {
                if hidden {
                    let v = match &input.value {
                        Some(v) => v.clone(),
                        None => String::new(),
                    };
                    set_field(&mut fields, n.clone(), v, Ghost(hidden_fields(iv.take(i as int))));
                }
            },
            None => {},
        }
        i = i + 1;
    }
    assert(iv.take(inputs@.len() as int) =~= iv);
    let ghost h = hidden_fields(iv);
    set_field(&mut fields, String::from_str("username"), String::from_str(username), Ghost(h));
    set_field(&mut fields, String::from_str("password"), String::from_str(password), Ghost(h.insert("username"@, username@)));
    fields
}

/// The fields to post to log in, from the login page: its hidden inputs, by
/// the selector `form input`, with the credentials over them. `None` where
/// the selector does not parse.
pub fn login_form_from_page(page: &str, username: &str, password: &str) -> (r: Option<Vec<(String, String)>>)
    ensures
        match selected_inputs_of(page@, "form input"@) {
            Some(iv) => r is Some && represents(r->Some_0@, login_fields(iv, username@, password@)),
            None => r is None,
        },
{
    match select_inputs(page, "form input") {
        Some(inputs) => Some(login_form(&inputs, username, password)),
        None => None,
    }
}

} // verus!
