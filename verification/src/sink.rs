//! The output sink's data: the fixed header line, the quoted
//! comma-separated row the file sink writes per product, the ordered column
//! values the table sink binds, and the row parser that splits a written
//! line back into its fields.

use crate::records::{sink_fields, Product};
use vstd::prelude::*;

verus! {

/// One field wrapped in double quotes.
pub open spec fn quoted(f: Seq<char>) -> Seq<char> {
    seq!['"'] + f + seq!['"']
}

/// Fields joined into quoted comma-separated form.
pub open spec fn fields_joined(fs: Seq<Seq<char>>) -> Seq<char>
    decreases fs.len(),
{
    if fs.len() == 0 {
        Seq::empty()
    } else if fs.len() == 1 {
        quoted(fs[0])
    } else {
        quoted(fs[0]) + seq![','] + fields_joined(fs.drop_first())
    }
}

/// A data row: the quoted comma-separated fields, terminated by a newline.
pub open spec fn csv_row_spec(fs: Seq<Seq<char>>) -> Seq<char> {
    fields_joined(fs) + seq!['\n']
}

/// The values of a sequence of strings.
pub open spec fn strings_view(v: Seq<String>) -> Seq<Seq<char>> {
    Seq::new(v.len(), |i: int| v[i]@)
}

proof fn lemma_joined_push(fs: Seq<Seq<char>>, x: Seq<char>)
    requires
        fs.len() >= 1,
    ensures
        fields_joined(fs.push(x)) == fields_joined(fs) + seq![','] + quoted(x),
    decreases fs.len(),
{
    if fs.len() == 1 {
        let p = fs.push(x);
        assert(p[0] == fs[0]);
        assert(p.drop_first() =~= seq![x]);
        assert(fields_joined(seq![x]) == quoted(x));
        assert(fields_joined(p) == quoted(p[0]) + seq![','] + fields_joined(p.drop_first()));
    } else {
        assert(fs.push(x).drop_first() =~= fs.drop_first().push(x));
        lemma_joined_push(fs.drop_first(), x);
        assert(quoted(fs[0]) + seq![','] + (fields_joined(fs.drop_first()) + seq![','] + quoted(x))
            =~= (quoted(fs[0]) + seq![','] + fields_joined(fs.drop_first())) + seq![','] + quoted(
            x,
        ));
    }
}

/// Renders one data row from its field values: each field double-quoted,
/// fields comma-separated, the row newline-terminated.
pub fn render_row(fields: &Vec<String>) -> (r: String)
    ensures
        r@ == csv_row_spec(strings_view(fields@)),
{
    let ghost fv = strings_view(fields@);
    let mut out = String::new();
    let mut i: usize = 0;
    proof {
        assert(fv.subrange(0, 0) =~= Seq::<Seq<char>>::empty());
    }
    while i < fields.len()
        invariant
            i <= fields@.len(),
            fv == strings_view(fields@),
            out@ == fields_joined(fv.subrange(0, i as int)),
        decreases fields@.len() - i,
    {
        proof {
            reveal_strlit("\"");
            reveal_strlit(",");
        }
        if i > 0 {
            out.append(",");
        }
        out.append("\"");
        out.append(fields[i].as_str());
        out.append("\"");
        proof {
            assert(("\"")@ =~= seq!['"']);
            assert((",")@ =~= seq![',']);
            assert(fv.subrange(0, i + 1 as int) =~= fv.subrange(0, i as int).push(fv[i as int]));
            if i == 0 {
                assert(fv.subrange(0, 1) =~= seq![fv[0]]);
                assert(out@ =~= quoted(fv[0]));
            } else {
                lemma_joined_push(fv.subrange(0, i as int), fv[i as int]);
                assert(out@ =~= fields_joined(fv.subrange(0, i as int)) + seq![','] + quoted(
                    fv[i as int],
                ));
            }
        }
        i = i + 1;
    }
    out.append("\n");
    proof {
        reveal_strlit("\n");
        assert(("\n")@ =~= seq!['\n']);
        assert(fv.subrange(0, fields@.len() as int) =~= fv);
        assert(out@ =~= csv_row_spec(fv));
    }
    out
}

/// The fourteen file-sink fields of a product, in column order.
pub fn product_fields(p: &Product) -> (v: Vec<String>)
    ensures
        strings_view(v@) == sink_fields(p@),
{
    let mut v: Vec<String> = Vec::new();
    v.push(p.id.clone());
    v.push(p.name.clone());
    v.push(p.typ.clone());
    v.push(p.price.clone());
    v.push(p.unit.clone());
    v.push(p.metric.clone());
    v.push(p.image_url.clone());
    v.push(p.url.clone());
    v.push(p.department.clone());
    v.push(p.category.clone());
    v.push(p.subcategory.clone());
    v.push(p.department_url.clone());
    v.push(p.category_url.clone());
    v.push(p.subcategory_url.clone());
    proof {
        assert(strings_view(v@) =~= sink_fields(p@));
    }
    v
}

/// The file sink's data row for one product.
pub fn csv_row(p: &Product) -> (r: String)
    ensures
        r@ == csv_row_spec(sink_fields(p@)),
{
    let fields = product_fields(p);
    render_row(&fields)
}

/// The fixed header line the file sink writes once per destination.
pub open spec fn header_spec() -> Seq<char> {
    "Item Number,Name,Type,Price,Unit,Metric,Image URL,URL,Department,Category,Subcategory,Department URL,Category URL, Subcategory URL\n"@
}

/// Renders the fixed header line.
pub fn csv_header() -> (r: String)
    ensures
        r@ == header_spec(),
{
    String::from_str(
        "Item Number,Name,Type,Price,Unit,Metric,Image URL,URL,Department,Category,Subcategory,Department URL,Category URL, Subcategory URL\n",
    )
}

/// The table sink's fifteen value parameters for one product, in the
/// upsert's column order: identifier, name, type, country, price, unit,
/// metric, URL, image URL, then the three lineage name/URL pairs.
pub fn table_row(p: &Product) -> (v: Vec<String>)
    ensures
        strings_view(v@) == seq![
            p@.id,
            p@.name,
            p@.typ,
            p@.country,
            p@.price,
            p@.unit,
            p@.metric,
            p@.url,
            p@.image_url,
            p@.department,
            p@.category,
            p@.subcategory,
            p@.department_url,
            p@.category_url,
            p@.subcategory_url,
        ],
{
    let mut v: Vec<String> = Vec::new();
    v.push(p.id.clone());
    v.push(p.name.clone());
    v.push(p.typ.clone());
    v.push(p.country.clone());
    v.push(p.price.clone());
    v.push(p.unit.clone());
    v.push(p.metric.clone());
    v.push(p.url.clone());
    v.push(p.image_url.clone());
    v.push(p.department.clone());
    v.push(p.category.clone());
    v.push(p.subcategory.clone());
    v.push(p.department_url.clone());
    v.push(p.category_url.clone());
    v.push(p.subcategory_url.clone());
    proof {
        assert(strings_view(v@) =~= seq![
            p@.id,
            p@.name,
            p@.typ,
            p@.country,
            p@.price,
            p@.unit,
            p@.metric,
            p@.url,
            p@.image_url,
            p@.department,
            p@.category,
            p@.subcategory,
            p@.department_url,
            p@.category_url,
            p@.subcategory_url,
        ]);
    }
    v
}

/// Whether a field holds no double quote; only such fields survive the
/// documented quoting rules unchanged.
pub open spec fn quote_free(f: Seq<char>) -> bool {
    forall|i: int| 0 <= i < f.len() ==> f[i] != '"'
}

/// The index of the first double quote in `s`, or its length when none
/// occurs.
pub open spec fn first_quote(s: Seq<char>) -> int
    decreases s.len(),
{
    if s.len() == 0 {
        0
    } else if s[0] == '"' {
        0
    } else {
        1 + first_quote(s.drop_first())
    }
}

proof fn lemma_first_quote_at(s: Seq<char>, k: int)
    requires
        0 <= k <= s.len(),
        forall|i: int| 0 <= i < k ==> s[i] != '"',
        k < s.len() ==> s[k] == '"',
    ensures
        first_quote(s) == k,
    decreases s.len(),
{
    if s.len() > 0 && s[0] != '"' {
        lemma_first_quote_at(s.drop_first(), k - 1);
    }
}

/// Splits one written row back into its fields by the documented quoting
/// rules: an opening quote, the field up to the next quote, then either a
/// comma and further fields or the terminating newline. None when the line
/// does not have that shape.
pub open spec fn parse_row_spec(s: Seq<char>) -> Option<Seq<Seq<char>>>
    decreases s.len(),
{
    if s.len() == 0 || s[0] != '"' {
        None
    } else {
        let t = s.drop_first();
        let q = first_quote(t);
        if q < 0 || q >= t.len() {
            None
        } else {
            let f = t.subrange(0, q);
            let rest = t.subrange(q + 1, t.len() as int);
            if rest.len() == 0 {
                None
            } else if rest[0] == '\n' {
                if rest.len() == 1 {
                    Some(seq![f])
                } else {
                    None
                }
            } else if rest[0] == ',' {
                match parse_row_spec(rest.drop_first()) {
                    Some(fs) => Some(seq![f] + fs),
                    None => None,
                }
            } else {
                None
            }
        }
    }
}

/// Round trip: a data row rendered from quote-free fields parses back to
/// exactly those fields.
pub proof fn lemma_row_round_trip(fs: Seq<Seq<char>>)
    requires
        fs.len() >= 1,
        forall|i: int| 0 <= i < fs.len() ==> quote_free(#[trigger] fs[i]),
    ensures
        parse_row_spec(csv_row_spec(fs)) == Some(fs),
    decreases fs.len(),
{
    let s = csv_row_spec(fs);
    let f0 = fs[0];
    let t = s.drop_first();
    if fs.len() == 1 {
        assert(s =~= seq!['"'] + f0 + seq!['"'] + seq!['\n']);
        assert(forall|i: int| 0 <= i < f0.len() ==> t[i] == f0[i]);
        assert(t[f0.len() as int] == '"');
        lemma_first_quote_at(t, f0.len() as int);
        assert(t.subrange(0, f0.len() as int) =~= f0);
        let rest = t.subrange(f0.len() as int + 1, t.len() as int);
        assert(rest =~= seq!['\n']);
        assert(parse_row_spec(s) == Some(seq![f0]));
        assert(seq![f0] =~= fs);
    } else {
        let fr = fs.drop_first();
        let rest_row = csv_row_spec(fr);
        assert(s =~= seq!['"'] + f0 + seq!['"'] + seq![','] + rest_row);
        assert(forall|i: int| 0 <= i < f0.len() ==> t[i] == f0[i]);
        assert(t[f0.len() as int] == '"');
        lemma_first_quote_at(t, f0.len() as int);
        assert(t.subrange(0, f0.len() as int) =~= f0);
        let rest = t.subrange(f0.len() as int + 1, t.len() as int);
        assert(rest =~= seq![','] + rest_row);
        assert(rest[0] == ',');
        assert(rest.drop_first() =~= rest_row);
        assert(forall|i: int| 0 <= i < fr.len() ==> quote_free(#[trigger] fr[i]));
        lemma_row_round_trip(fr);
        assert(parse_row_spec(s) == Some(seq![f0] + fr));
        assert(seq![f0] + fr =~= fs);
    }
}

/// Prefixing already-parsed fields onto the outcome of the remainder.
pub open spec fn opt_prepend(a: Seq<Seq<char>>, o: Option<Seq<Seq<char>>>) -> Option<
    Seq<Seq<char>>,
> {
    match o {
        Some(fs) => Some(a + fs),
        None => None,
    }
}

/// Splits one written row back into its fields; None when the line does not
/// follow the documented quoting rules.
pub fn parse_row(line: &str) -> (r: Option<Vec<String>>)
    ensures
        match r {
            Some(v) => parse_row_spec(line@) == Some(strings_view(v@)),
            None => parse_row_spec(line@) is None,
        },
{
    let n = line.unicode_len();
    let mut acc: Vec<String> = Vec::new();
    let mut pos: usize = 0;
    proof {
        assert(line@.subrange(0, n as int) =~= line@);
        assert(strings_view(acc@) =~= Seq::<Seq<char>>::empty());
        assert(match parse_row_spec(line@) {
            Some(fs) => Seq::<Seq<char>>::empty() + fs =~= fs,
            None => true,
        });
    }
    while pos < n
        invariant
            n == line@.len(),
            pos <= n,
            parse_row_spec(line@) == opt_prepend(
                strings_view(acc@),
                parse_row_spec(line@.subrange(pos as int, n as int)),
            ),
        decreases n - pos,
    {
        let ghost suf = line@.subrange(pos as int, n as int);
        let ghost t = suf.drop_first();
        proof {
            assert(t =~= line@.subrange(pos + 1 as int, n as int));
        }
        if line.get_char(pos) != '"' {
            return None;
        }
        let mut q: usize = pos + 1;
        while q < n && line.get_char(q) != '"'
            invariant
                n == line@.len(),
                pos + 1 <= q <= n,
                forall|j: int| pos + 1 <= j < q ==> line@[j] != '"',
            decreases n - q,
        {
            q = q + 1;
        }
        proof {
            lemma_first_quote_at(t, q - (pos + 1));
        }
        if q >= n {
            return None;
        }
        if q + 1 >= n {
            return None;
        }
        let field = line.substring_char(pos + 1, q);
        let ghost fseq = t.subrange(0, (q - (pos + 1)) as int);
        proof {
            assert(fseq =~= field@);
        }
        let ghost rest = t.subrange((q - pos) as int, t.len() as int);
        proof {
            assert(rest =~= line@.subrange(q + 1 as int, n as int));
        }
        let c = line.get_char(q + 1);
        if c == '\n' {
            if q + 2 == n {
                let ghost pre_acc = strings_view(acc@);
                acc.push(field.to_owned());
                proof {
                    assert(rest =~= seq!['\n']);
                    assert(parse_row_spec(suf) == Some(seq![fseq]));
                    assert(strings_view(acc@) =~= pre_acc.push(field@));
                    assert(pre_acc + seq![fseq] =~= strings_view(acc@));
                }
                return Some(acc);
            } else {
                return None;
            }
        } else if c == ',' {
            let ghost pre_acc = strings_view(acc@);
            acc.push(field.to_owned());
            proof {
                assert(rest[0] == ',');
                assert(rest.drop_first() =~= line@.subrange(q + 2 as int, n as int));
                assert(parse_row_spec(suf) == opt_prepend(
                    seq![fseq],
                    parse_row_spec(line@.subrange(q + 2 as int, n as int)),
                ));
                assert(strings_view(acc@) =~= pre_acc.push(field@));
                let inner = parse_row_spec(line@.subrange(q + 2 as int, n as int));
                assert(match inner {
                    Some(fs) => pre_acc + (seq![fseq] + fs) =~= strings_view(acc@) + fs,
                    None => true,
                });
            }
            pos = q + 2;
        } else {
            return None;
        }
    }
    proof {
        assert(line@.subrange(n as int, n as int).len() == 0);
    }
    None
}

} // verus!
