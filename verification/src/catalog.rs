//! The models that the gateway offers.
use crate::config::ImageGenerationConfig;
use crate::gemini;
use crate::gemini::{GeminiModel, ModelView};
use crate::http;
use crate::http::{ApiError, RequestHeader};
use crate::ids;
use crate::openai;
use crate::openai::{ModelData, ModelDataView, ModelListResponse};
use crate::text;
use vstd::prelude::*;

verus! {

/// Whether `a` goes before `b`: at the first place where they differ, by the
/// number of the character there, and before all that it begins.
pub open spec fn before(a: Seq<char>, b: Seq<char>) -> bool
    decreases a.len(),
{
    if b.len() == 0 {
        false
    } else if a.len() == 0 {
        true
    } else if a[0] != b[0] {
        (a[0] as int) < (b[0] as int)
    } else {
        before(a.drop_first(), b.drop_first())
    }
}

/// Whether each text of a list goes before all that follow it.
pub open spec fn increasing(list: Seq<Seq<char>>) -> bool {
    forall|i: int, j: int| 0 <= i < j < list.len() ==> before(#[trigger] list[i], #[trigger] list[j])
}

proof fn lemma_before_is_total(a: Seq<char>, b: Seq<char>)
    ensures
        a == b || before(a, b) || before(b, a),
        !before(a, a),
    decreases a.len(),
{
    if a.len() > 0 {
        lemma_before_is_total(a.drop_first(), b.drop_first());
        if b.len() > 0 && a[0] == b[0] && a.drop_first() == b.drop_first() {
            assert(a == seq![a[0]] + a.drop_first());
            assert(b == seq![b[0]] + b.drop_first());
        }
    } else if b.len() == 0 {
        assert(a == b);
    }
}

proof fn lemma_before_is_transitive(a: Seq<char>, b: Seq<char>, c: Seq<char>)
    requires
        before(a, b),
        before(b, c),
    ensures
        before(a, c),
    decreases a.len(),
{
    if a.len() > 0 && a[0] == b[0] && b[0] == c[0] {
        lemma_before_is_transitive(a.drop_first(), b.drop_first(), c.drop_first());
    }
}

/// The number of a character.
fn char_number(c: char) -> (r: u32)
    ensures
        r == c as int,
{
    c as u32
}

/// Whether `a` goes before `b`.
pub fn goes_before(a: &str, b: &str) -> (r: bool)
    ensures
        r == before(a@, b@),
{
    let left = text::chars_of(a);
    let right = text::chars_of(b);
    let mut i: usize = 0;
    assert(left@.skip(0) == left@);
    assert(right@.skip(0) == right@);
    while i < left.len() && i < right.len() && left[i] == right[i]
        invariant
            i <= left@.len(),
            i <= right@.len(),
            before(left@, right@) == before(left@.skip(i as int), right@.skip(i as int)),
        decreases left@.len() - i,
    {
        assert(left@.skip(i as int).drop_first() == left@.skip(i + 1));
        assert(right@.skip(i as int).drop_first() == right@.skip(i + 1));
        i = i + 1;
    }
    if i >= right.len() {
        false
    } else if i >= left.len() {
        true
    } else {
        char_number(left[i]) < char_number(right[i])
    }
}

/// Puts a text in its place in a list, unless it stands there.
fn put_in_order(list: &mut Vec<String>, s: String)
    requires
        increasing(text::views(old(list)@)),
    ensures
        increasing(text::views(final(list)@)),
        forall|x: Seq<char>| #[trigger]
            text::views(final(list)@).contains(x) <==> text::views(old(list)@).contains(x) || x
                == s@,
{
    let ghost before_put = text::views(list@);
    let mut i: usize = 0;
    while i < list.len() && goes_before(list[i].as_str(), s.as_str())
        invariant
            i <= list@.len(),
            forall|j: int| 0 <= j < i ==> before(#[trigger] text::views(list@)[j], s@),
        decreases list@.len() - i,
    {
        i = i + 1;
    }
    if i < list.len() && text::same(list[i].as_str(), s.as_str()) {
        assert(before_put[i as int] == s@);
        return ;
    }
    list.insert(i, s);
    proof {
        let after = text::views(list@);
        assert(after =~= before_put.insert(i as int, s@));
        if i < before_put.len() {
            lemma_before_is_total(before_put[i as int], s@);
        }
        assert forall|j: int, k: int| 0 <= j < k < after.len() implies before(
            #[trigger] after[j],
            #[trigger] after[k],
        ) by {
            if j == i {
                let next = before_put[i as int];
                if k - 1 > i {
                    lemma_before_is_transitive(s@, next, before_put[k - 1]);
                }
            } else if k == i {
                assert(before(before_put[j], s@));
            } else {
                let from = if j < i {
                    j
                } else {
                    j - 1
                };
                let to = if k < i {
                    k
                } else {
                    k - 1
                };
                assert(before(before_put[from], before_put[to]));
            }
        }
        assert forall|x: Seq<char>| #[trigger] after.contains(x) <==> before_put.contains(x) || x
            == s@ by {
            if after.contains(x) {
                let j = choose|j: int| 0 <= j < after.len() && after[j] == x;
                if j < i {
                    assert(before_put[j] == x);
                } else if j > i {
                    assert(before_put[j - 1] == x);
                }
            }
            if before_put.contains(x) {
                let j = choose|j: int| 0 <= j < before_put.len() && before_put[j] == x;
                if j < i {
                    assert(after[j] == x);
                } else {
                    assert(after[j + 1] == x);
                }
            }
            assert(after[i as int] == s@);
        }
    }
}

/// The image models that are known, and the configured one.
pub open spec fn known_image_models(configured: Seq<char>) -> Seq<Seq<char>> {
    seq![
        configured,
        "gemini-3.1-flash-image-preview"@,
        "gemini-3-pro-image-preview"@,
        "gemini-2.5-flash-image"@,
        "imagen-4.0-generate-001"@,
        "imagen-4.0-fast-generate-001"@,
        "imagen-4.0-ultra-generate-001"@,
    ]
}

/// Whether `ids` are the known image models that are not blank, in order and each
/// of them once.
pub open spec fn are_image_models(ids: Seq<Seq<char>>, configured: Seq<char>) -> bool {
    &&& increasing(ids)
    &&& forall|x: Seq<char>| #[trigger]
        ids.contains(x) <==> known_image_models(configured).contains(x) && text::trim(x).len() > 0
}

pub fn image_model_ids(configured: &str) -> (r: Vec<String>)
    ensures
        are_image_models(text::views(r@), configured@),
        text::views(r@) == image_models(configured@),
{
    let known = vec![
        configured,
        "gemini-3.1-flash-image-preview",
        "gemini-3-pro-image-preview",
        "gemini-2.5-flash-image",
        "imagen-4.0-generate-001",
        "imagen-4.0-fast-generate-001",
        "imagen-4.0-ultra-generate-001",
    ];
    let ghost all = known_image_models(configured@);
    let mut ids: Vec<String> = Vec::new();
    let mut i: usize = 0;
    while i < known.len()
        invariant
            all.len() == known@.len(),
            forall|j: int| 0 <= j < all.len() ==> #[trigger] all[j] == known@[j]@,
            i <= known@.len(),
            increasing(text::views(ids@)),
            forall|x: Seq<char>| #[trigger]
                text::views(ids@).contains(x) <==> all.take(i as int).contains(x) && text::trim(
                    x,
                ).len() > 0,
        decreases known@.len() - i,
    {
        let ghost earlier = text::views(ids@);
        let id = known[i].to_owned();
        if !text::trimmed(id.as_str()).as_str().is_empty() {
            put_in_order(&mut ids, id);
        }
        proof {
            let so_far = all.take(i as int);
            let now = all.take(i + 1);
            assert(now == so_far.push(all[i as int]));
            assert forall|x: Seq<char>| #[trigger] text::views(ids@).contains(x) <==> now.contains(
                x,
            ) && text::trim(x).len() > 0 by {
                assert(now.contains(x) <==> so_far.contains(x) || x == all[i as int]) by {
                    if so_far.contains(x) {
                        let j = choose|j: int| 0 <= j < so_far.len() && so_far[j] == x;
                        assert(now[j] == x);
                    }
                    assert(now[i as int] == all[i as int]);
                }
                assert(earlier.contains(x) <==> so_far.contains(x) && text::trim(x).len() > 0);
            }
        }
        i = i + 1;
    }
    assert(all.take(i as int) == all);
    proof {
        law_image_models_are_determined(
            text::views(ids@),
            image_models(configured@),
            configured@,
        );
    }
    ids
}

/// The known image models that are not blank, in order and each of them once.
pub open spec fn image_models(configured: Seq<char>) -> Seq<Seq<char>> {
    choose|ids: Seq<Seq<char>>| are_image_models(ids, configured)
}

/// There is only one list of the image models.
pub proof fn law_image_models_are_determined(
    a: Seq<Seq<char>>,
    b: Seq<Seq<char>>,
    configured: Seq<char>,
)
    requires
        are_image_models(a, configured),
        are_image_models(b, configured),
    ensures
        a == b,
{
    assert forall|x: Seq<char>| a.contains(x) <==> b.contains(x) by {
        assert(a.contains(x) <==> known_image_models(configured).contains(x) && text::trim(x).len()
            > 0);
        assert(b.contains(x) <==> known_image_models(configured).contains(x) && text::trim(x).len()
            > 0);
    }
    lemma_order_and_members_determine(a, b);
}

proof fn lemma_order_and_members_determine(a: Seq<Seq<char>>, b: Seq<Seq<char>>)
    requires
        increasing(a),
        increasing(b),
        forall|x: Seq<char>| a.contains(x) <==> b.contains(x),
    ensures
        a == b,
    decreases a.len(),
{
    if a.len() == 0 || b.len() == 0 {
        if a.len() > 0 {
            assert(a.contains(a[0]));
        }
        if b.len() > 0 {
            assert(b.contains(b[0]));
        }
        assert(a == b);
    } else {
        let x = a.last();
        let y = b.last();
        assert(a.contains(x) && b.contains(y));
        let k = choose|k: int| 0 <= k < b.len() && b[k] == x;
        let j = choose|j: int| 0 <= j < a.len() && a[j] == y;
        if x != y {
            assert(before(b[k], b[b.len() - 1]));
            assert(before(a[j], a[a.len() - 1]));
            lemma_before_is_transitive(x, y, x);
            lemma_before_is_total(x, x);
        }
        let shorter_a = a.drop_last();
        let shorter_b = b.drop_last();
        assert forall|z: Seq<char>| shorter_a.contains(z) <==> shorter_b.contains(z) by {
            lemma_before_is_total(x, x);
            if shorter_a.contains(z) {
                let i = choose|i: int| 0 <= i < shorter_a.len() && shorter_a[i] == z;
                assert(a[i] == z && before(a[i], a[a.len() - 1]));
                assert(a.contains(z));
                let m = choose|m: int| 0 <= m < b.len() && b[m] == z;
                assert(shorter_b[m] == z);
            }
            if shorter_b.contains(z) {
                let i = choose|i: int| 0 <= i < shorter_b.len() && shorter_b[i] == z;
                assert(b[i] == z && before(b[i], b[b.len() - 1]));
                assert(b.contains(z));
                let m = choose|m: int| 0 <= m < a.len() && a[m] == z;
                assert(shorter_a[m] == z);
            }
        }
        lemma_order_and_members_determine(shorter_a, shorter_b);
        assert(a == shorter_a.push(x));
        assert(b == shorter_b.push(y));
    }
}

/// What is said of a model.
pub open spec fn listed_model(id: Seq<char>, owned_by: Seq<char>, created: int) -> ModelDataView {
    ModelDataView { id, object: "model"@, created, owned_by }
}

/// What is said of the models of Gemini Web.
pub open spec fn gemini_listing(models: Seq<ModelView>, created: int) -> Seq<ModelDataView> {
    models.map_values(|m: ModelView| listed_model(m.model_name, m.owned_by, created))
}

/// Whether a model of that name stands in a list.
pub open spec fn lists(data: Seq<ModelDataView>, id: Seq<char>) -> bool {
    exists|i: int| 0 <= i < data.len() && (#[trigger] data[i]).id == id
}

/// A list of models with the image models that it lacks.
pub open spec fn with_image_models(
    data: Seq<ModelDataView>,
    ids: Seq<Seq<char>>,
    created: int,
) -> Seq<ModelDataView>
    decreases ids.len(),
{
    if ids.len() == 0 {
        data
    } else {
        let earlier = with_image_models(data, ids.drop_last(), created);
        if lists(earlier, ids.last()) {
            earlier
        } else {
            earlier.push(listed_model(ids.last(), "image-generation"@, created))
        }
    }
}

/// The models that the gateway offers: those of Gemini Web, then, where pictures are
/// made, the image models that are not among them.
pub open spec fn listing(
    models: Seq<ModelView>,
    image_generation_enabled: bool,
    image_model: Seq<char>,
    created: int,
) -> Seq<ModelDataView> {
    let data = gemini_listing(models, created);
    if image_generation_enabled {
        with_image_models(data, image_models(image_model), created)
    } else {
        data
    }
}

/// Whether a model of that name stands in a list.
fn is_listed(data: &Vec<ModelData>, id: &str) -> (r: bool)
    ensures
        r == lists(openai::model_data_views(data@), id@),
{
    let ghost all = openai::model_data_views(data@);
    let mut i: usize = 0;
    while i < data.len()
        invariant
            all == openai::model_data_views(data@),
            i <= data@.len(),
            forall|j: int| 0 <= j < i ==> (#[trigger] all[j]).id != id@,
        decreases data@.len() - i,
    {
        if text::same(data[i].id.as_str(), id) {
            assert(all[i as int].id == id@);
            return true;
        }
        i = i + 1;
    }
    false
}

/// The models that the gateway offers.
pub fn model_listing(
    models: &Vec<GeminiModel>,
    image_generation: &ImageGenerationConfig,
    created: i64,
) -> (r: ModelListResponse)
    ensures
        r.object@ == "list"@,
        openai::model_data_views(r.data@) == listing(
            gemini::model_views(models@),
            image_generation.enabled(),
            image_generation.model@,
            created as int,
        ),
{
    let ghost offered = gemini_listing(gemini::model_views(models@), created as int);
    let mut data: Vec<ModelData> = Vec::new();
    let mut i: usize = 0;
    while i < models.len()
        invariant
            i <= models@.len(),
            offered == gemini_listing(gemini::model_views(models@), created as int),
            openai::model_data_views(data@) == offered.take(i as int),
        decreases models@.len() - i,
    {
        let ghost earlier = data@;
        let next = ModelData {
            id: models[i].model_name.clone(),
            object: "model",
            created,
            owned_by: models[i].owned_by.clone(),
        };
        data.push(next);
        assert(openai::model_data_views(data@) == openai::model_data_views(earlier).push(next@));
        i = i + 1;
    }
    assert(offered.take(i as int) == offered);
    if image_generation.is_enabled() {
        let ids = image_model_ids(image_generation.model.as_str());
        let ghost all = text::views(ids@);
        let mut k: usize = 0;
        while k < ids.len()
            invariant
                k <= ids@.len(),
                all == text::views(ids@),
                openai::model_data_views(data@) == with_image_models(
                    offered,
                    all.take(k as int),
                    created as int,
                ),
            decreases ids@.len() - k,
        {
            let ghost earlier = data@;
            assert(all.take(k + 1).drop_last() == all.take(k as int));
            assert(all.take(k + 1).last() == ids@[k as int]@);
            if !is_listed(&data, ids[k].as_str()) {
                let next = ModelData {
                    id: ids[k].clone(),
                    object: "model",
                    created,
                    owned_by: "image-generation".to_owned(),
                };
                data.push(next);
                assert(openai::model_data_views(data@) == openai::model_data_views(earlier).push(
                    next@,
                ));
            }
            k = k + 1;
        }
        assert(all.take(k as int) == all);
    }
    ModelListResponse { object: "list", data }
}

/// Answers a request for the models.
pub fn list_models(
    api_key: Option<&str>,
    headers: &[RequestHeader],
    models: &Vec<GeminiModel>,
    image_generation: &ImageGenerationConfig,
) -> (r: Result<ModelListResponse, ApiError>)
    ensures
        match http::refusal(http::opt_str(api_key), headers@) {
            Some(why) => r matches Err(e) && e.says(401, why),
            None => r matches Ok(list) && list.object@ == "list"@ && exists|created: int|
                created >= 0 && openai::model_data_views(list.data@) == #[trigger] listing(
                    gemini::model_views(models@),
                    image_generation.enabled(),
                    image_generation.model@,
                    created,
                ),
        },
{
    match http::verify_auth(api_key, headers) {
        Err(e) => Err(e),
        Ok(()) => Ok(model_listing(models, image_generation, ids::now())),
    }
}

/// Where pictures are made, every image model is offered.
pub proof fn law_image_models_are_offered(
    models: Seq<ModelView>,
    image_model: Seq<char>,
    created: int,
    i: int,
)
    requires
        0 <= i < image_models(image_model).len(),
    ensures
        lists(listing(models, true, image_model, created), image_models(image_model)[i]),
{
    lemma_image_model_is_listed(
        gemini_listing(models, created),
        image_models(image_model),
        created,
        i,
    );
}

proof fn lemma_image_model_is_listed(
    data: Seq<ModelDataView>,
    ids: Seq<Seq<char>>,
    created: int,
    i: int,
)
    requires
        0 <= i < ids.len(),
    ensures
        lists(with_image_models(data, ids, created), ids[i]),
    decreases ids.len(),
{
    let earlier = with_image_models(data, ids.drop_last(), created);
    let all = with_image_models(data, ids, created);
    if i == ids.len() - 1 {
        if !lists(earlier, ids.last()) {
            assert(all[all.len() - 1].id == ids.last());
        }
    } else {
        lemma_image_model_is_listed(data, ids.drop_last(), created, i);
        let k = choose|k: int| 0 <= k < earlier.len() && (#[trigger] earlier[k]).id == ids[i];
        assert(all[k] == earlier[k]);
    }
}

proof fn lemma_put(list: Seq<Seq<char>>, s: Seq<char>) -> (r: Seq<Seq<char>>)
    requires
        increasing(list),
    ensures
        increasing(r),
        forall|x: Seq<char>| #[trigger] r.contains(x) <==> list.contains(x) || x == s,
    decreases list.len(),
{
    if list.len() == 0 {
        let r = seq![s];
        assert forall|x: Seq<char>| #[trigger] r.contains(x) <==> list.contains(x) || x == s by {
            assert(r[0] == s);
        }
        r
    } else {
        let last = list.last();
        let shorter = list.drop_last();
        lemma_before_is_total(last, s);
        assert(list =~= shorter.push(last));
        if last == s {
            assert forall|x: Seq<char>| #[trigger] list.contains(x) <==> list.contains(x) || x
                == s by {
                assert(list[list.len() - 1] == s);
            }
            list
        } else if before(last, s) {
            let r = list.push(s);
            assert forall|i: int, j: int| 0 <= i < j < r.len() implies before(
                #[trigger] r[i],
                #[trigger] r[j],
            ) by {
                if j == list.len() && i < list.len() - 1 {
                    assert(before(list[i], list[list.len() - 1]));
                    lemma_before_is_transitive(list[i], last, s);
                } else if j < list.len() {
                    assert(before(list[i], list[j]));
                }
            }
            assert forall|x: Seq<char>| #[trigger] r.contains(x) <==> list.contains(x) || x
                == s by {
                if list.contains(x) {
                    let k = choose|k: int| 0 <= k < list.len() && list[k] == x;
                    assert(r[k] == x);
                }
                assert(r[list.len() as int] == s);
            }
            r
        } else {
            assert forall|i: int, j: int| 0 <= i < j < shorter.len() implies before(
                #[trigger] shorter[i],
                #[trigger] shorter[j],
            ) by {
                assert(before(list[i], list[j]));
            }
            let put = lemma_put(shorter, s);
            let r = put.push(last);
            assert forall|i: int, j: int| 0 <= i < j < r.len() implies before(
                #[trigger] r[i],
                #[trigger] r[j],
            ) by {
                if j == put.len() {
                    assert(put.contains(put[i]));
                    if put[i] != s {
                        let k = choose|k: int| 0 <= k < shorter.len() && shorter[k] == put[i];
                        assert(before(list[k], list[list.len() - 1]));
                    }
                } else {
                    assert(before(put[i], put[j]));
                }
            }
            assert forall|x: Seq<char>| #[trigger] r.contains(x) <==> list.contains(x) || x
                == s by {
                if r.contains(x) {
                    let k = choose|k: int| 0 <= k < r.len() && r[k] == x;
                    if k < put.len() {
                        assert(put.contains(x));
                        if x != s {
                            let m = choose|m: int| 0 <= m < shorter.len() && shorter[m] == x;
                            assert(list[m] == x);
                        }
                    } else {
                        assert(list[list.len() - 1] == x);
                    }
                }
                if list.contains(x) {
                    let k = choose|k: int| 0 <= k < list.len() && list[k] == x;
                    if k < shorter.len() {
                        assert(shorter[k] == x);
                        assert(put.contains(x));
                        let m = choose|m: int| 0 <= m < put.len() && put[m] == x;
                        assert(r[m] == x);
                    } else {
                        assert(r[put.len() as int] == x);
                    }
                }
                if x == s {
                    assert(put.contains(x));
                    let m = choose|m: int| 0 <= m < put.len() && put[m] == x;
                    assert(r[m] == x);
                }
            }
            r
        }
    }
}

proof fn lemma_ordered(all: Seq<Seq<char>>) -> (r: Seq<Seq<char>>)
    ensures
        increasing(r),
        forall|x: Seq<char>| #[trigger]
            r.contains(x) <==> all.contains(x) && text::trim(x).len() > 0,
    decreases all.len(),
{
    if all.len() == 0 {
        Seq::empty()
    } else {
        let shorter = all.drop_last();
        let earlier = lemma_ordered(shorter);
        let last = all.last();
        assert forall|x: Seq<char>| #[trigger] all.contains(x) <==> shorter.contains(x) || x
            == last by {
            if all.contains(x) {
                let k = choose|k: int| 0 <= k < all.len() && all[k] == x;
                if k < shorter.len() {
                    assert(shorter[k] == x);
                }
            }
            if shorter.contains(x) {
                let k = choose|k: int| 0 <= k < shorter.len() && shorter[k] == x;
                assert(all[k] == x);
            }
            assert(all[all.len() - 1] == last);
        }
        if text::trim(last).len() > 0 {
            lemma_put(earlier, last)
        } else {
            earlier
        }
    }
}

proof fn lemma_image_models_are_there(configured: Seq<char>)
    ensures
        are_image_models(image_models(configured), configured),
{
    let ids = lemma_ordered(known_image_models(configured));
    assert(are_image_models(ids, configured));
}

/// Where pictures are made, the models that make them are offered: those of Gemini, those of
/// Imagen, and the configured one.
pub proof fn law_models_that_make_pictures_are_offered(
    models: Seq<ModelView>,
    configured: Seq<char>,
    created: int,
    id: Seq<char>,
)
    requires
        id == "gemini-3.1-flash-image-preview"@ || id == "gemini-3-pro-image-preview"@ || id
            == "gemini-2.5-flash-image"@ || id == "imagen-4.0-generate-001"@ || id
            == "imagen-4.0-fast-generate-001"@ || id == "imagen-4.0-ultra-generate-001"@ || (id
            == configured && !text::is_blank(configured)),
    ensures
        lists(listing(models, true, configured, created), id),
{
    reveal_strlit("gemini-3.1-flash-image-preview");
    reveal_strlit("gemini-3-pro-image-preview");
    reveal_strlit("gemini-2.5-flash-image");
    reveal_strlit("imagen-4.0-generate-001");
    reveal_strlit("imagen-4.0-fast-generate-001");
    reveal_strlit("imagen-4.0-ultra-generate-001");
    let known = known_image_models(configured);
    assert(known[0] == configured);
    assert(known[1] == "gemini-3.1-flash-image-preview"@);
    assert(known[2] == "gemini-3-pro-image-preview"@);
    assert(known[3] == "gemini-2.5-flash-image"@);
    assert(known[4] == "imagen-4.0-generate-001"@);
    assert(known[5] == "imagen-4.0-fast-generate-001"@);
    assert(known[6] == "imagen-4.0-ultra-generate-001"@);
    text::law_blank_texts_are_trimmed_to_nothing(id);
    if text::is_blank(id) {
        assert(text::is_space(id[0]));
    }
    lemma_image_models_are_there(configured);
    assert(known.contains(id));
    assert(image_models(configured).contains(id));
    let i = choose|i: int|
        0 <= i < image_models(configured).len() && image_models(configured)[i] == id;
    law_image_models_are_offered(models, configured, created, i);
}

proof fn lemma_listed_first(data: Seq<ModelDataView>, ids: Seq<Seq<char>>, created: int)
    ensures
        data.len() <= with_image_models(data, ids, created).len(),
        with_image_models(data, ids, created).take(data.len() as int) == data,
        forall|k: int|
            data.len() <= k < with_image_models(data, ids, created).len() ==> (
            #[trigger] with_image_models(data, ids, created)[k]).owned_by == "image-generation"@
                && with_image_models(data, ids, created)[k].object == "model"@
                && with_image_models(data, ids, created)[k].created == created && ids.contains(
                with_image_models(data, ids, created)[k].id,
            ),
    decreases ids.len(),
{
    let all = with_image_models(data, ids, created);
    if ids.len() == 0 {
        assert(data.take(data.len() as int) =~= data);
    } else {
        lemma_listed_first(data, ids.drop_last(), created);
        let earlier = with_image_models(data, ids.drop_last(), created);
        assert(all.take(data.len() as int) =~= earlier.take(data.len() as int));
        assert forall|k: int| data.len() <= k < all.len() implies (#[trigger] all[k]).owned_by
            == "image-generation"@ && all[k].object == "model"@ && all[k].created == created
            && ids.contains(all[k].id) by {
            if k < earlier.len() {
                assert(all[k] == earlier[k]);
                let m = choose|m: int|
                    0 <= m < ids.drop_last().len() && ids.drop_last()[m] == earlier[k].id;
                assert(ids[m] == all[k].id);
            } else {
                assert(ids[ids.len() - 1] == all[k].id);
            }
        }
    }
}

/// Every model of Gemini Web is offered in its place, under its name and with its owner, before
/// the models that make pictures; and where no pictures are made, no other model is.
pub proof fn law_models_of_gemini_web_are_offered_first(
    models: Seq<ModelView>,
    image_generation_enabled: bool,
    configured: Seq<char>,
    created: int,
    i: int,
)
    requires
        0 <= i < models.len(),
    ensures
        ({
            let data = listing(models, image_generation_enabled, configured, created);
            &&& data.len() >= models.len()
            &&& data[i].id == models[i].model_name
            &&& data[i].owned_by == models[i].owned_by
            &&& data[i].object == "model"@
            &&& data[i].created == created
            &&& !image_generation_enabled ==> data.len() == models.len()
        }),
{
    let first = gemini_listing(models, created);
    lemma_listed_first(first, image_models(configured), created);
    let all = with_image_models(first, image_models(configured), created);
    assert(all.take(first.len() as int)[i] == all[i]);
}

/// What is offered beside the models of Gemini Web are models that make pictures, and says so.
pub proof fn law_other_models_make_pictures(
    models: Seq<ModelView>,
    configured: Seq<char>,
    created: int,
    k: int,
)
    requires
        models.len() <= k < listing(models, true, configured, created).len(),
    ensures
        listing(models, true, configured, created)[k].owned_by == "image-generation"@,
        listing(models, true, configured, created)[k].object == "model"@,
        known_image_models(configured).contains(
            listing(models, true, configured, created)[k].id,
        ),
{
    let first = gemini_listing(models, created);
    lemma_listed_first(first, image_models(configured), created);
    lemma_image_models_are_there(configured);
    assert(image_models(configured).contains(listing(models, true, configured, created)[k].id));
}

/// Texts are ordered by the first characters at which they differ, and a text goes before
/// every other one that it begins.
pub proof fn law_texts_are_ordered_by_their_first_difference(
    p: Seq<char>,
    c: char,
    a: Seq<char>,
    d: char,
    b: Seq<char>,
)
    requires
        c != d,
    ensures
        before(p.push(c) + a, p.push(d) + b) <==> (c as u32) < (d as u32),
        before(p, p.push(d) + b),
        !before(p.push(c) + a, p),
    decreases p.len(),
{
    let left = p.push(c) + a;
    let right = p.push(d) + b;
    if p.len() == 0 {
        assert(left[0] == c && right[0] == d);
    } else {
        let q = p.drop_first();
        assert(left[0] == p[0] && right[0] == p[0]);
        assert(left.drop_first() =~= q.push(c) + a);
        assert(right.drop_first() =~= q.push(d) + b);
        law_texts_are_ordered_by_their_first_difference(q, c, a, d, b);
    }
}

} // verus!
