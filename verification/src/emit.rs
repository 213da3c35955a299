//! Emission: converts output values to the emitter's document type and
//! renders them. Strings are handed to the emitter as raw number-style
//! text so scalar text round-trips unquoted, which is also how plain
//! template scalars keep their spelling. Map keys whose contents coincide
//! after that conversion are merged here, the first keeping its position
//! and the last value winning, before the emitter's map — whose insert
//! moves a repeated key to the back — ever sees a repeated key.

use vstd::prelude::*;
use crate::outside::{EmitYaml, emit_yaml_doc, emitted_doc, yr_array, yr_bool, yr_hash, yr_int, yr_null, yr_real, yr_view};
use crate::semantics::hash_insert_all;
use crate::yaml::{Yaml, YamlV, hash_insert_v, lemma_hash_insert_at, lemma_hash_insert_missing, yaml_pairs_view, yaml_seq_view, yaml_view};

verus! {

broadcast use vstd::seq::group_seq_axioms, vstd::std_specs::vec::group_vec_axioms, crate::yaml::group_yaml_view_lemmas;

/// The emitter-side image of a value: strings become raw number-style
/// text; a map's entries are folded in order, a repeated key image
/// keeping its first position with the last value.
pub open spec fn emit_image(v: YamlV) -> YamlV
    decreases v, 1int,
{
    match v {
        YamlV::Real(s) => YamlV::Real(s),
        YamlV::Integer(i) => YamlV::Integer(i),
        YamlV::String(s) => YamlV::Real(s),
        YamlV::Boolean(b) => YamlV::Boolean(b),
        YamlV::Null => YamlV::Null,
        YamlV::Array(items) => YamlV::Array(emit_image_seq(items)),
        YamlV::Hash(es) => YamlV::Hash(
            hash_insert_all(Seq::empty(), emit_image_pairs(es)),
        ),
    }
}

pub open spec fn emit_image_seq(s: Seq<YamlV>) -> Seq<YamlV>
    decreases s, 0int,
{
    if s.len() == 0 {
        Seq::empty()
    } else {
        emit_image_seq(s.drop_last()).push(emit_image(s.last()))
    }
}

pub open spec fn emit_image_pairs(s: Seq<(YamlV, YamlV)>) -> Seq<(YamlV, YamlV)>
    decreases s, 0int,
{
    if s.len() == 0 {
        Seq::empty()
    } else {
        emit_image_pairs(s.drop_last()).push(
            (emit_image(s.last().0), emit_image(s.last().1)),
        )
    }
}

/// Folding entries one more entry at the end is one more insertion.
pub proof fn lemma_insert_all_snoc(
    acc: Seq<(YamlV, YamlV)>,
    sub: Seq<(YamlV, YamlV)>,
    k: YamlV,
    v: YamlV,
)
    ensures
        hash_insert_all(acc, sub.push((k, v))) == hash_insert_v(hash_insert_all(acc, sub), k, v),
    decreases sub,
{
    reveal_with_fuel(hash_insert_all, 3);
    if sub.len() == 0 {
        assert(sub.push((k, v)).drop_first() =~= sub);
        assert(sub.push((k, v))[0] == (k, v));
    } else {
        assert(sub.push((k, v)).drop_first() =~= sub.drop_first().push((k, v)));
        assert(sub.push((k, v))[0] == sub[0]);
        lemma_insert_all_snoc(hash_insert_v(acc, sub[0].0, sub[0].1), sub.drop_first(), k, v);
    }
}

/// Converts a value to the emitter's document type, together with its
/// image as a value of the library's own, used to compare keys.
#[verifier::loop_isolation(false)]
#[verifier::rlimit(100)]
fn convert_emit(v: &Yaml) -> (r: (EmitYaml, Yaml))
    ensures
        yaml_view(r.1) == emit_image(yaml_view(*v)),
        yr_view(r.0) == yaml_view(r.1),
    decreases v,
{
    match v {
        Yaml::Real(s) => {
            let d = yr_real(s.as_str());
            let img = Yaml::Real(s.clone());
            let r = (d, img);
            proof {
                assert(yr_view(r.0) == YamlV::Real(s@));
                assert(yaml_view(r.1) == YamlV::Real(s@));
            }
            r
        },
        Yaml::Integer(i) => (yr_int(*i), Yaml::Integer(*i)),
        Yaml::String(s) => {
            let d = yr_real(s.as_str());
            let img = Yaml::Real(s.clone());
            proof {
                assert(yr_view(d) == YamlV::Real(s@));
                assert(yaml_view(img) == YamlV::Real(s@));
            }
            (d, img)
        },
        Yaml::Boolean(b) => (yr_bool(*b), Yaml::Boolean(*b)),
        Yaml::Null => (yr_null(), Yaml::Null),
        Yaml::Array(items) => {
            let mut out: Vec<EmitYaml> = Vec::new();
            let mut imgs: Vec<Yaml> = Vec::new();
            let mut i: usize = 0;
            proof {
                assert(yaml_seq_view(items@).take(0) =~= Seq::<YamlV>::empty());
                assert(emit_image_seq(yaml_seq_view(items@).take(0)) =~= yaml_seq_view(imgs@));
            }
            while i < items.len()
                invariant
                    0 <= i <= items@.len(),
                    out@.len() == i,
                    imgs@.len() == i,
                    yaml_seq_view(imgs@) == emit_image_seq(yaml_seq_view(items@).take(i as int)),
                    forall|m: int|
                        0 <= m < i ==> yr_view(#[trigger] out@[m]) == yaml_view(imgs@[m]),
                decreases items@.len() - i,
            {
                let ghost pre = yaml_seq_view(imgs@);
                proof {
                    assert(yaml_seq_view(items@).take(i + 1).drop_last() =~= yaml_seq_view(
                        items@,
                    ).take(i as int));
                    assert(yaml_seq_view(items@).take(i + 1).last() == yaml_view(
                        items@[i as int],
                    ));
                }
                let (d, img) = convert_emit(&items[i]);
                out.push(d);
                let ghost prevseq = imgs@;
                imgs.push(img);
                proof {
                    assert(imgs@.drop_last() =~= prevseq);
                    assert(yaml_seq_view(imgs@) =~= pre.push(yaml_view(imgs@.last())));
                }
                i += 1;
            }
            proof {
                assert(yaml_seq_view(items@).take(items@.len() as int) =~= yaml_seq_view(items@));
                assert(Seq::new(out@.len(), |m: int| yr_view(out@[m])) =~= yaml_seq_view(imgs@));
            }
            (yr_array(out), Yaml::Array(imgs))
        },
        Yaml::Hash(es) => {
            let mut pairs: Vec<(EmitYaml, EmitYaml)> = Vec::new();
            let mut img_pairs: Vec<(Yaml, Yaml)> = Vec::new();
            let mut i: usize = 0;
            proof {
                assert(yaml_pairs_view(es@).take(0) =~= Seq::<(YamlV, YamlV)>::empty());
                assert(emit_image_pairs(yaml_pairs_view(es@).take(0)) =~= Seq::<
                    (YamlV, YamlV),
                >::empty());
                assert(yaml_pairs_view(img_pairs@) =~= Seq::<(YamlV, YamlV)>::empty());
            }
            while i < es.len()
                invariant
                    0 <= i <= es@.len(),
                    pairs@.len() == img_pairs@.len(),
                    yaml_pairs_view(img_pairs@) == hash_insert_all(
                        Seq::empty(),
                        emit_image_pairs(yaml_pairs_view(es@).take(i as int)),
                    ),
                    forall|m: int|
                        0 <= m < pairs@.len() ==> yr_view(#[trigger] pairs@[m].0) == yaml_view(
                            img_pairs@[m].0,
                        ) && yr_view(pairs@[m].1) == yaml_view(img_pairs@[m].1),
                    forall|m: int, n: int|
                        0 <= m < n < img_pairs@.len() ==> yaml_view(
                            #[trigger] img_pairs@[m].0,
                        ) != yaml_view(#[trigger] img_pairs@[n].0),
                decreases es@.len() - i,
            {
                let ghost folded = yaml_pairs_view(img_pairs@);
                proof {
                    assert(yaml_pairs_view(es@).take(i + 1).drop_last() =~= yaml_pairs_view(
                        es@,
                    ).take(i as int));
                    assert(yaml_pairs_view(es@).take(i + 1).last() == (
                        yaml_view(es@[i as int].0),
                        yaml_view(es@[i as int].1),
                    ));
                    assert(emit_image_pairs(yaml_pairs_view(es@).take(i + 1))
                        =~= emit_image_pairs(yaml_pairs_view(es@).take(i as int)).push(
                        (
                            emit_image(yaml_view(es@[i as int].0)),
                            emit_image(yaml_view(es@[i as int].1)),
                        ),
                    ));
                    lemma_insert_all_snoc(
                        Seq::empty(),
                        emit_image_pairs(yaml_pairs_view(es@).take(i as int)),
                        emit_image(yaml_view(es@[i as int].0)),
                        emit_image(yaml_view(es@[i as int].1)),
                    );
                }
                let (kd, kimg) = convert_emit(&es[i].0);
                let (vd, vimg) = convert_emit(&es[i].1);
                let ghost kv = yaml_view(kimg);
                let ghost vv = yaml_view(vimg);
                let mut m: usize = 0;
                let mut found = false;
                while m < img_pairs.len() && !found
                    invariant
                        0 <= m <= img_pairs@.len(),
                        found ==> m < img_pairs@.len() && yaml_view(img_pairs@[m as int].0) == kv,
                        !found ==> forall|n: int|
                            0 <= n < m ==> yaml_view(#[trigger] img_pairs@[n].0) != kv,
                    decreases img_pairs@.len() - m, (if found { 0int } else { 1int }),
                {
                    if img_pairs[m].0.structural_eq(&kimg) {
                        found = true;
                    } else {
                        m += 1;
                    }
                }
                if found {
                    proof {
                        assert(folded[m as int].0 == kv);
                        lemma_hash_insert_at(
                            folded,
                            folded.update(m as int, (kv, vv)),
                            m as int,
                            kv,
                            vv,
                        );
                    }
                    pairs.set(m, (kd, vd));
                    img_pairs.set(m, (kimg, vimg));
                    proof {
                        assert(yaml_pairs_view(img_pairs@) =~= folded.update(m as int, (kv, vv)));
                    }
                } else {
                    proof {
                        lemma_hash_insert_missing(folded, kv, vv);
                    }
                    pairs.push((kd, vd));
                    let ghost prevseq = img_pairs@;
                    img_pairs.push((kimg, vimg));
                    proof {
                        assert(img_pairs@.drop_last() =~= prevseq);
                        assert(yaml_pairs_view(img_pairs@) =~= folded.push((kv, vv)));
                    }
                }
                i += 1;
            }
            proof {
                assert(yaml_pairs_view(es@).take(es@.len() as int) =~= yaml_pairs_view(es@));
                assert(Seq::new(
                    pairs@.len(),
                    |m: int| (yr_view(pairs@[m].0), yr_view(pairs@[m].1)),
                ) =~= yaml_pairs_view(img_pairs@));
            }
            (yr_hash(pairs), Yaml::Hash(img_pairs))
        },
    }
}

/// Converts a value to the emitter's document type.
pub fn to_emit_yaml(v: &Yaml) -> (d: EmitYaml)
    ensures
        yr_view(d) == emit_image(yaml_view(*v)),
{
    let (d, _) = convert_emit(v);
    d
}

/// The rendered text of the output documents: every document's image is
/// printed, in order, one after the other.
pub open spec fn emitted_docs(docs: Seq<YamlV>, i: int, acc: Seq<char>) -> Seq<char>
    decreases docs.len() - i,
{
    if i < 0 || i >= docs.len() {
        acc
    } else {
        emitted_docs(docs, i + 1, acc + emitted_doc(emit_image(docs[i])))
    }
}

/// Renders the output documents, mirroring `emitted_docs`: the text is
/// the documents' emissions back to back, the first opening with `---`
/// and a newline; rendering cannot fail.
#[verifier::loop_isolation(false)]
pub fn yaml_emit_to_string(docs: &Vec<Yaml>) -> (r: Result<String, String>)
    ensures
        r is Ok,
        r matches Ok(s) ==> s@ == emitted_docs(yaml_seq_view(docs@), 0, Seq::empty()) && (
        docs@.len() > 0 ==> s@.len() >= 4 && s@[0] == '-' && s@[1] == '-' && s@[2] == '-'
            && s@[3] == '\n'),
{
    let mut out = String::new();
    let mut i: usize = 0;
    proof {
        assert(out@ =~= Seq::<char>::empty());
    }
    while i < docs.len()
        invariant
            0 <= i <= docs@.len(),
            emitted_docs(yaml_seq_view(docs@), 0, Seq::empty()) == emitted_docs(
                yaml_seq_view(docs@),
                i as int,
                out@,
            ),
            i == 0 ==> out@.len() == 0,
            i > 0 ==> out@.len() >= 4 && out@[0] == '-' && out@[1] == '-' && out@[2] == '-'
                && out@[3] == '\n',
        decreases docs@.len() - i,
    {
        let d = to_emit_yaml(&docs[i]);
        let text = match emit_yaml_doc(&d) {
            Ok(t) => t,
            Err(_) => {
                proof {
                    assert(false);
                }
                String::new()
            },
        };
        out.append(text.as_str());
        i += 1;
    }
    Ok(out)
}

} // verus!
