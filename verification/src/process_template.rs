//! The whole pipeline: parse the template, load the configuration and the
//! variables, interpret, and render the output text. The outcome is
//! pinned stage by stage: the template text through `template_parse_result`,
//! the configuration and every YAML variable through `load_result`, the
//! evaluation through `sp_file`, and the rendering through `emitted_docs`.

use vstd::prelude::*;
use crate::ast::FileTemplate;
use crate::emit::{emitted_docs, yaml_emit_to_string};
use crate::errors::rendered;
use crate::interpreter::{frame_view, interpret};
use crate::loader::{load_error_message, load_result, parse_yaml_str};
use crate::semantics::{FrameV, sp_file};
use crate::template::{FileV, file_view, parse_template, template_parse_result};
use crate::yaml::{Yaml, YamlV};

verus! {

broadcast use vstd::seq::group_seq_axioms, vstd::std_specs::vec::group_vec_axioms, crate::yaml::group_yaml_view_lemmas;

/// A variable handed to the engine: either a plain string or a YAML text
/// still to be parsed.
pub enum VariableValue {
    String(String),
    Yaml(String),
}

/// The model of a variable's unparsed value.
pub enum VariableValueV {
    String(Seq<char>),
    Yaml(Seq<char>),
}

pub open spec fn variable_value_view(v: VariableValue) -> VariableValueV {
    match v {
        VariableValue::String(s) => VariableValueV::String(s@),
        VariableValue::Yaml(s) => VariableValueV::Yaml(s@),
    }
}

pub open spec fn varargs_view(vs: Seq<(String, VariableValue)>) -> Seq<
    (Seq<char>, VariableValueV),
> {
    Seq::new(vs.len(), |i: int| (vs[i].0@, variable_value_view(vs[i].1)))
}

/// A named variable together with its position on the command line, so a
/// caller can keep the combined order of plain and YAML variables.
pub struct VariableArg {
    pub index: usize,
    pub name: String,
    pub value: VariableValue,
}

/// The configuration a text yields: nothing is null, one document is that
/// document, anything else is an error.
pub open spec fn config_result(config: Seq<char>) -> Result<YamlV, Seq<char>> {
    match load_result(config) {
        Err(le) => Err("failed to parse config: "@ + load_error_message(le)),
        Ok(docs) => if docs.len() == 0 {
            Ok(YamlV::Null)
        } else if docs.len() == 1 {
            Ok(docs[0])
        } else {
            Err("config yaml must only have a single document"@)
        },
    }
}

/// The variable frame the arguments yield, in order: a plain value binds
/// its text; a YAML value binds its single parsed document, or null when
/// the text is empty.
pub open spec fn vars_result(vs: Seq<(Seq<char>, VariableValueV)>, i: int, acc: FrameV) -> Result<
    FrameV,
    Seq<char>,
>
    decreases vs.len() - i,
{
    if i < 0 || i >= vs.len() {
        Ok(acc)
    } else {
        match vs[i].1 {
            VariableValueV::String(text) => vars_result(
                vs,
                i + 1,
                acc.push((vs[i].0, YamlV::String(text))),
            ),
            VariableValueV::Yaml(text) => match load_result(text) {
                Err(le) => Err(
                    "failed to parse yamlarg '"@ + vs[i].0 + "': "@ + load_error_message(le),
                ),
                Ok(docs) => if docs.len() == 0 {
                    vars_result(vs, i + 1, acc.push((vs[i].0, YamlV::Null)))
                } else if docs.len() == 1 {
                    vars_result(vs, i + 1, acc.push((vs[i].0, docs[0])))
                } else {
                    Err("yamlarg '"@ + vs[i].0 + "' has more than one document"@)
                },
            },
        }
    }
}

/// What the pipeline yields once the template tree is built: the
/// configuration, then the variables, then evaluation, then rendering,
/// each failure keeping its message.
pub open spec fn pipeline_after_parse(
    t: FileTemplate,
    config: Seq<char>,
    vs: Seq<(Seq<char>, VariableValueV)>,
) -> Result<Seq<char>, Seq<char>> {
    match config_result(config) {
        Err(m) => Err(m),
        Ok(cfg) => match vars_result(vs, 0, Seq::empty()) {
            Err(m) => Err(m),
            Ok(frame) => match sp_file(cfg, seq![frame], t.docs@, 0, Seq::empty()) {
                Err(e) => Err(rendered(e)),
                Ok(docs) => Ok(emitted_docs(docs, 0, Seq::empty())),
            },
        },
    }
}

fn lit_string(s: &str) -> (r: String)
    ensures
        r@ == s@,
{
    let mut out = String::new();
    out.append(s);
    proof {
        assert(out@ =~= s@);
    }
    out
}

/// Processes a template text against a configuration text and named
/// variables, returning the rendered output documents. Later variables
/// with the same name override earlier ones. On failure the first stage
/// to fail gives the diagnostic text and nothing is rendered.
///
/// The template tree is quantified: the parse outcome pins its whole
/// model, and the rest of the pipeline is a function of that tree.
#[verifier::rlimit(100)]
#[verifier::loop_isolation(false)]
pub fn process_yaml_template_str(
    filename: &str,
    template_string: &str,
    config_string: &str,
    varargs: Vec<(String, VariableValue)>,
) -> (r: Result<String, String>)
    ensures
        match r {
            Ok(out) => exists|t: FileTemplate|
                #![auto]
                template_parse_result(template_string@, filename@) == Ok::<FileV, Seq<char>>(
                    file_view(t),
                ) && pipeline_after_parse(t, config_string@, varargs_view(varargs@)) == Ok::<
                    Seq<char>,
                    Seq<char>,
                >(out@),
            Err(m) => template_parse_result(template_string@, filename@) == Err::<
                FileV,
                Seq<char>,
            >(m@) || exists|t: FileTemplate|
                #![auto]
                template_parse_result(template_string@, filename@) == Ok::<FileV, Seq<char>>(
                    file_view(t),
                ) && pipeline_after_parse(t, config_string@, varargs_view(varargs@)) == Err::<
                    Seq<char>,
                    Seq<char>,
                >(m@),
        },
{
    let template = match parse_template(filename, template_string) {
        Err(m) => {
            return Err(m);
        },
        Ok(t) => t,
    };
    let ghost vsv = varargs_view(varargs@);
    let mut config_docs = match parse_yaml_str(config_string) {
        Err(le) => {
            let mut msg = lit_string("failed to parse config: ");
            let detail = le.render();
            msg.append(detail.as_str());
            proof {
                assert(msg@ =~= "failed to parse config: "@ + load_error_message(
                    crate::loader::load_error_view(le),
                ));
                assert(pipeline_after_parse(template, config_string@, vsv) == Err::<
                    Seq<char>,
                    Seq<char>,
                >(msg@));
            }
            return Err(msg);
        },
        Ok(docs) => docs,
    };
    let config = if config_docs.len() == 0 {
        Yaml::Null
    } else if config_docs.len() == 1 {
        match config_docs.pop() {
            Some(c) => c,
            None => Yaml::Null,
        }
    } else {
        let msg = lit_string("config yaml must only have a single document");
        proof {
            assert(pipeline_after_parse(template, config_string@, vsv) == Err::<
                Seq<char>,
                Seq<char>,
            >(msg@));
        }
        return Err(msg);
    };
    proof {
        assert(config_result(config_string@) == Ok::<YamlV, Seq<char>>(config@));
    }
    let mut variables: Vec<(String, Yaml)> = Vec::new();
    let mut i: usize = 0;
    proof {
        assert(frame_view(variables@) =~= Seq::<(Seq<char>, YamlV)>::empty());
    }
    while i < varargs.len()
        invariant
            0 <= i <= varargs@.len(),
            vsv == varargs_view(varargs@),
            vars_result(vsv, 0, Seq::empty()) == vars_result(
                vsv,
                i as int,
                frame_view(variables@),
            ),
        decreases varargs@.len() - i,
    {
        let ghost pre = frame_view(variables@);
        let name = varargs[i].0.clone();
        match &varargs[i].1 {
            VariableValue::String(value) => {
                variables.push((name, Yaml::String(value.clone())));
                proof {
                    assert(frame_view(variables@) =~= pre.push(
                        (variables@.last().0@, crate::yaml::yaml_view(variables@.last().1)),
                    ));
                }
            },
            VariableValue::Yaml(text) => {
                let mut docs = match parse_yaml_str(text.as_str()) {
                    Err(le) => {
                        let mut msg = lit_string("failed to parse yamlarg '");
                        msg.append(name.as_str());
                        msg.append("': ");
                        let detail = le.render();
                        msg.append(detail.as_str());
                        proof {
                            assert(msg@ =~= "failed to parse yamlarg '"@ + vsv[i as int].0
                                + "': "@ + load_error_message(crate::loader::load_error_view(le)));
                            assert(vars_result(vsv, 0, Seq::empty()) == Err::<FrameV, Seq<char>>(
                                msg@,
                            ));
                            assert(pipeline_after_parse(template, config_string@, vsv) == Err::<
                                Seq<char>,
                                Seq<char>,
                            >(msg@));
                        }
                        return Err(msg);
                    },
                    Ok(docs) => docs,
                };
                if docs.len() == 0 {
                    variables.push((name, Yaml::Null));
                    proof {
                        assert(frame_view(variables@) =~= pre.push(
                            (variables@.last().0@, crate::yaml::yaml_view(variables@.last().1)),
                        ));
                    }
                } else if docs.len() == 1 {
                    let v = match docs.pop() {
                        Some(v) => v,
                        None => Yaml::Null,
                    };
                    variables.push((name, v));
                    proof {
                        assert(frame_view(variables@) =~= pre.push(
                            (variables@.last().0@, crate::yaml::yaml_view(variables@.last().1)),
                        ));
                    }
                } else {
                    let mut msg = lit_string("yamlarg '");
                    msg.append(name.as_str());
                    msg.append("' has more than one document");
                    proof {
                        assert(msg@ =~= "yamlarg '"@ + vsv[i as int].0
                            + "' has more than one document"@);
                        assert(vars_result(vsv, 0, Seq::empty()) == Err::<FrameV, Seq<char>>(
                            msg@,
                        ));
                        assert(pipeline_after_parse(template, config_string@, vsv) == Err::<
                            Seq<char>,
                            Seq<char>,
                        >(msg@));
                    }
                    return Err(msg);
                }
            },
        }
        i += 1;
    }
    proof {
        assert(vars_result(vsv, 0, Seq::empty()) == Ok::<FrameV, Seq<char>>(
            frame_view(variables@),
        ));
    }
    let docs = match interpret(&template, config, variables) {
        Err(e) => {
            let msg = e.render();
            proof {
                assert(pipeline_after_parse(template, config_string@, vsv) == Err::<
                    Seq<char>,
                    Seq<char>,
                >(msg@));
            }
            return Err(msg);
        },
        Ok(docs) => docs,
    };
    match yaml_emit_to_string(&docs) {
        Err(m) => {
            proof {
                assert(false);
            }
            Err(m)
        },
        Ok(out) => {
            proof {
                assert(pipeline_after_parse(template, config_string@, vsv) == Ok::<
                    Seq<char>,
                    Seq<char>,
                >(out@));
            }
            Ok(out)
        },
    }
}

} // verus!
