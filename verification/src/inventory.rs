//! Parsing of inventory listings into structured items.
//!
//! The listing tools hand back newline-delimited records: pipe-separated
//! columns for containers, live usage figures and images, whitespace-separated
//! columns for pods. Each well-formed line becomes one item, in order; a
//! malformed line is skipped on its own without discarding the rest of the
//! listing, and a missing response yields an empty inventory so the dashboard
//! stays interactive when a tool is unavailable.

use vstd::prelude::*;

use crate::text::{
    clamp_u64, parse_centi, spec_centi, spec_split, spec_split_ws, spec_strip_trailing, spec_trim,
    split_str, split_whitespace_str, strip_trailing, trim_str,
};

verus! {

/// One row of the container listing before usage figures are attached.
pub struct Listing {
    pub id: String,
    pub image: String,
    pub name: String,
    pub status: String,
    pub ports: String,
}

/// Ghost image of a [`Listing`].
#[verifier::ext_equal]
pub struct ListingView {
    pub id: Seq<char>,
    pub image: Seq<char>,
    pub name: Seq<char>,
    pub status: Seq<char>,
    pub ports: Seq<char>,
}

impl DeepView for Listing {
    type V = ListingView;

    open spec fn deep_view(&self) -> ListingView {
        ListingView {
            id: self.id@,
            image: self.image@,
            name: self.name@,
            status: self.status@,
            ports: self.ports@,
        }
    }
}

/// One row of the live usage listing, keyed by container identity.
/// Percentages are held in hundredths of a percent.
pub struct Usage {
    pub id: String,
    pub cpu_centi_percent: u64,
    pub mem_usage: String,
    pub mem_centi_percent: u64,
    pub net_io: String,
    pub block_io: String,
}

/// Ghost image of a [`Usage`].
#[verifier::ext_equal]
pub struct UsageView {
    pub id: Seq<char>,
    pub cpu_centi_percent: u64,
    pub mem_usage: Seq<char>,
    pub mem_centi_percent: u64,
    pub net_io: Seq<char>,
    pub block_io: Seq<char>,
}

impl DeepView for Usage {
    type V = UsageView;

    open spec fn deep_view(&self) -> UsageView {
        UsageView {
            id: self.id@,
            cpu_centi_percent: self.cpu_centi_percent,
            mem_usage: self.mem_usage@,
            mem_centi_percent: self.mem_centi_percent,
            net_io: self.net_io@,
            block_io: self.block_io@,
        }
    }
}

/// One container of the inventory: the listing row joined with its usage
/// figures, or with explicit placeholders when no usage row matched.
pub struct Container {
    pub id: String,
    pub image: String,
    pub name: String,
    pub status: String,
    pub ports: String,
    pub cpu_centi_percent: u64,
    pub mem_usage: String,
    pub mem_centi_percent: u64,
    pub net_io: String,
    pub block_io: String,
}

/// Ghost image of a [`Container`].
#[verifier::ext_equal]
pub struct ContainerView {
    pub id: Seq<char>,
    pub image: Seq<char>,
    pub name: Seq<char>,
    pub status: Seq<char>,
    pub ports: Seq<char>,
    pub cpu_centi_percent: u64,
    pub mem_usage: Seq<char>,
    pub mem_centi_percent: u64,
    pub net_io: Seq<char>,
    pub block_io: Seq<char>,
}

impl DeepView for Container {
    type V = ContainerView;

    open spec fn deep_view(&self) -> ContainerView {
        ContainerView {
            id: self.id@,
            image: self.image@,
            name: self.name@,
            status: self.status@,
            ports: self.ports@,
            cpu_centi_percent: self.cpu_centi_percent,
            mem_usage: self.mem_usage@,
            mem_centi_percent: self.mem_centi_percent,
            net_io: self.net_io@,
            block_io: self.block_io@,
        }
    }
}

/// One image row of the inventory.
pub struct Image {
    pub repository: String,
    pub tag: String,
    pub image_id: String,
    pub size: String,
}

/// Ghost image of an [`Image`].
#[verifier::ext_equal]
pub struct ImageView {
    pub repository: Seq<char>,
    pub tag: Seq<char>,
    pub image_id: Seq<char>,
    pub size: Seq<char>,
}

impl DeepView for Image {
    type V = ImageView;

    open spec fn deep_view(&self) -> ImageView {
        ImageView {
            repository: self.repository@,
            tag: self.tag@,
            image_id: self.image_id@,
            size: self.size@,
        }
    }
}

/// One pod row of the inventory.
pub struct Pod {
    pub name: String,
    pub namespace: String,
    pub status: String,
    pub restarts: String,
    pub age: String,
}

/// Ghost image of a [`Pod`].
#[verifier::ext_equal]
pub struct PodView {
    pub name: Seq<char>,
    pub namespace: Seq<char>,
    pub status: Seq<char>,
    pub restarts: Seq<char>,
    pub age: Seq<char>,
}

impl DeepView for Pod {
    type V = PodView;

    open spec fn deep_view(&self) -> PodView {
        PodView {
            name: self.name@,
            namespace: self.namespace@,
            status: self.status@,
            restarts: self.restarts@,
            age: self.age@,
        }
    }
}

/// A listing line is well formed when it has at least five pipe-separated
/// columns.
pub open spec fn listing_line_ok(line: Seq<char>) -> bool {
    spec_split(line, '|').len() >= 5
}

/// The listing row read from a well-formed line.
pub open spec fn spec_listing_of(line: Seq<char>) -> ListingView {
    let f = spec_split(line, '|');
    ListingView { id: f[0], image: f[1], name: f[2], status: f[3], ports: f[4] }
}

/// The listing rows of a sequence of lines, well-formed lines only, in order.
pub open spec fn spec_parse_listings(lines: Seq<Seq<char>>) -> Seq<ListingView>
    decreases lines.len(),
{
    if lines.len() == 0 {
        Seq::empty()
    } else {
        spec_parse_listings(lines.drop_last()) + if listing_line_ok(lines.last()) {
            seq![spec_listing_of(lines.last())]
        } else {
            Seq::empty()
        }
    }
}

/// The listing rows of a whole response.
pub open spec fn spec_container_listings(s: Seq<char>) -> Seq<ListingView> {
    spec_parse_listings(spec_split(s, '\n'))
}

/// Parses the container listing response: one row per line with at least
/// five pipe-separated columns, in response order; other lines are skipped.
pub fn parse_container_listings(s: &str) -> (r: Vec<Listing>)
    ensures
        r.deep_view() == spec_container_listings(s@),
{
    let lines = split_str(s, '\n');
    let mut r: Vec<Listing> = Vec::new();
    let mut i: usize = 0;
    proof {
        assert(lines.deep_view().take(0) =~= Seq::<Seq<char>>::empty());
        assert(r.deep_view() =~= spec_parse_listings(lines.deep_view().take(0)));
    }
    while i < lines.len()
        invariant
            i <= lines.len(),
            lines.deep_view() == spec_split(s@, '\n'),
            r.deep_view() == spec_parse_listings(lines.deep_view().take(i as int)),
        decreases lines.len() - i,
    {
        let fields = split_str(lines[i].as_str(), '|');
        let ghost old_r = r.deep_view();
        if fields.len() >= 5 {
            r.push(Listing {
                id: fields[0].clone(),
                image: fields[1].clone(),
                name: fields[2].clone(),
                status: fields[3].clone(),
                ports: fields[4].clone(),
            });
            proof {
                assert(r.deep_view() =~= old_r.push(spec_listing_of(lines.deep_view()[i as int])));
            }
        }
        proof {
            let lv = lines.deep_view();
            assert(lv.take(i + 1).drop_last() =~= lv.take(i as int));
            assert(lv.take(i + 1).last() == lv[i as int]);
            assert(r.deep_view() =~= spec_parse_listings(lv.take(i + 1)));
        }
        i = i + 1;
    }
    proof {
        assert(lines.deep_view().take(lines@.len() as int) =~= lines.deep_view());
    }
    r
}

/// A usage line is well formed when it has at least six pipe-separated
/// columns.
pub open spec fn usage_line_ok(line: Seq<char>) -> bool {
    spec_split(line, '|').len() >= 6
}

/// The usage row read from a well-formed line: percentage columns lose their
/// trailing `%` signs and are read in hundredths; text columns stay as they
/// are.
pub open spec fn spec_usage_of(line: Seq<char>) -> UsageView {
    let f = spec_split(line, '|');
    UsageView {
        id: f[0],
        cpu_centi_percent: spec_centi(spec_strip_trailing(f[1], '%')),
        mem_usage: f[2],
        mem_centi_percent: spec_centi(spec_strip_trailing(f[3], '%')),
        net_io: f[4],
        block_io: f[5],
    }
}

/// The usage rows of a sequence of lines, well-formed lines only, in order.
pub open spec fn spec_parse_usages(lines: Seq<Seq<char>>) -> Seq<UsageView>
    decreases lines.len(),
{
    if lines.len() == 0 {
        Seq::empty()
    } else {
        spec_parse_usages(lines.drop_last()) + if usage_line_ok(lines.last()) {
            seq![spec_usage_of(lines.last())]
        } else {
            Seq::empty()
        }
    }
}

/// The usage rows of a whole response.
pub open spec fn spec_container_usages(s: Seq<char>) -> Seq<UsageView> {
    spec_parse_usages(spec_split(s, '\n'))
}

/// Parses the live usage response: one row per line with at least six
/// pipe-separated columns, in response order; other lines are skipped.
pub fn parse_container_usages(s: &str) -> (r: Vec<Usage>)
    ensures
        r.deep_view() == spec_container_usages(s@),
{
    let lines = split_str(s, '\n');
    let mut r: Vec<Usage> = Vec::new();
    let mut i: usize = 0;
    proof {
        assert(lines.deep_view().take(0) =~= Seq::<Seq<char>>::empty());
        assert(r.deep_view() =~= spec_parse_usages(lines.deep_view().take(0)));
    }
    while i < lines.len()
        invariant
            i <= lines.len(),
            lines.deep_view() == spec_split(s@, '\n'),
            r.deep_view() == spec_parse_usages(lines.deep_view().take(i as int)),
        decreases lines.len() - i,
    {
        let fields = split_str(lines[i].as_str(), '|');
        let ghost old_r = r.deep_view();
        if fields.len() >= 6 {
            let cpu_text = strip_trailing(fields[1].as_str(), '%');
            let cpu = parse_centi(cpu_text.as_str());
            let mem_text = strip_trailing(fields[3].as_str(), '%');
            let mem = parse_centi(mem_text.as_str());
            r.push(Usage {
                id: fields[0].clone(),
                cpu_centi_percent: cpu,
                mem_usage: fields[2].clone(),
                mem_centi_percent: mem,
                net_io: fields[4].clone(),
                block_io: fields[5].clone(),
            });
            proof {
                assert(r.deep_view() =~= old_r.push(spec_usage_of(lines.deep_view()[i as int])));
            }
        }
        proof {
            let lv = lines.deep_view();
            assert(lv.take(i + 1).drop_last() =~= lv.take(i as int));
            assert(lv.take(i + 1).last() == lv[i as int]);
            assert(r.deep_view() =~= spec_parse_usages(lv.take(i + 1)));
        }
        i = i + 1;
    }
    proof {
        assert(lines.deep_view().take(lines@.len() as int) =~= lines.deep_view());
    }
    r
}

/// The usage row that a listing with identity `id` picks up: the last
/// matching row, as a later row for the same identity replaces an earlier
/// one.
pub open spec fn spec_find_usage(us: Seq<UsageView>, id: Seq<char>) -> Option<UsageView>
    decreases us.len(),
{
    if us.len() == 0 {
        None
    } else if us.last().id == id {
        Some(us.last())
    } else {
        spec_find_usage(us.drop_last(), id)
    }
}

/// The placeholder text shown for a metric column with no usage row.
pub open spec fn unavailable_text() -> Seq<char> {
    seq!['N', '/', 'A']
}

/// A listing joined with its usage figures, or with zero percentages and
/// `N/A` text when no usage row matches — the container is kept either way.
pub open spec fn spec_merge_one(l: ListingView, us: Seq<UsageView>) -> ContainerView {
    match spec_find_usage(us, l.id) {
        Some(u) => ContainerView {
            id: l.id,
            image: l.image,
            name: l.name,
            status: l.status,
            ports: l.ports,
            cpu_centi_percent: u.cpu_centi_percent,
            mem_usage: u.mem_usage,
            mem_centi_percent: u.mem_centi_percent,
            net_io: u.net_io,
            block_io: u.block_io,
        },
        None => ContainerView {
            id: l.id,
            image: l.image,
            name: l.name,
            status: l.status,
            ports: l.ports,
            cpu_centi_percent: 0,
            mem_usage: unavailable_text(),
            mem_centi_percent: 0,
            net_io: unavailable_text(),
            block_io: unavailable_text(),
        },
    }
}

/// Every listing joined with its usage figures, in listing order.
pub open spec fn spec_merge(ls: Seq<ListingView>, us: Seq<UsageView>) -> Seq<ContainerView> {
    Seq::new(ls.len(), |i: int| spec_merge_one(ls[i], us))
}

/// Finds the index of the last usage row matching `id`, if any.
fn find_usage(usages: &Vec<Usage>, id: &String) -> (r: Option<usize>)
    ensures
        match r {
            Some(k) => k < usages@.len() && spec_find_usage(usages.deep_view(), id@) == Some(
                usages.deep_view()[k as int],
            ),
            None => spec_find_usage(usages.deep_view(), id@) is None,
        },
{
    let mut k = usages.len();
    proof {
        assert(usages.deep_view().take(usages@.len() as int) =~= usages.deep_view());
    }
    while k > 0
        invariant
            k <= usages@.len(),
            spec_find_usage(usages.deep_view(), id@) == spec_find_usage(
                usages.deep_view().take(k as int),
                id@,
            ),
        decreases k,
    {
        k = k - 1;
        if usages[k].id.eq(id) {
            proof {
                let uv = usages.deep_view();
                assert(uv.take(k + 1).last() == uv[k as int]);
                assert(uv[k as int].id == id@);
            }
            return Some(k);
        }
        proof {
            let uv = usages.deep_view();
            assert(uv.take(k + 1).last() == uv[k as int]);
            assert(uv.take(k + 1).drop_last() =~= uv.take(k as int));
        }
    }
    proof {
        assert(usages.deep_view().take(0) =~= Seq::<UsageView>::empty());
    }
    None
}

/// Joins every listing with its usage figures; a listing without a matching
/// usage row gets zero percentages and `N/A` text rather than being dropped.
pub fn merge_usage(listings: &Vec<Listing>, usages: &Vec<Usage>) -> (r: Vec<Container>)
    ensures
        r.deep_view() == spec_merge(listings.deep_view(), usages.deep_view()),
{
    proof {
        reveal_strlit("N/A");
    }
    let mut r: Vec<Container> = Vec::new();
    let mut i: usize = 0;
    proof {
        assert("N/A"@ =~= unavailable_text());
        assert(r.deep_view() =~= spec_merge(listings.deep_view(), usages.deep_view()).take(0));
    }
    while i < listings.len()
        invariant
            i <= listings@.len(),
            r.deep_view() == spec_merge(listings.deep_view(), usages.deep_view()).take(i as int),
            "N/A"@ == unavailable_text(),
        decreases listings.len() - i,
    {
        let ghost old_r = r.deep_view();
        let l = &listings[i];
        let c = match find_usage(usages, &l.id) {
            Some(k) => {
                let u = &usages[k];
                Container {
                    id: l.id.clone(),
                    image: l.image.clone(),
                    name: l.name.clone(),
                    status: l.status.clone(),
                    ports: l.ports.clone(),
                    cpu_centi_percent: u.cpu_centi_percent,
                    mem_usage: u.mem_usage.clone(),
                    mem_centi_percent: u.mem_centi_percent,
                    net_io: u.net_io.clone(),
                    block_io: u.block_io.clone(),
                }
            },
            None => Container {
                id: l.id.clone(),
                image: l.image.clone(),
                name: l.name.clone(),
                status: l.status.clone(),
                ports: l.ports.clone(),
                cpu_centi_percent: 0,
                mem_usage: String::from_str("N/A"),
                mem_centi_percent: 0,
                net_io: String::from_str("N/A"),
                block_io: String::from_str("N/A"),
            },
        };
        proof {
            assert(c.deep_view() =~= spec_merge_one(
                listings.deep_view()[i as int],
                usages.deep_view(),
            ));
        }
        let ghost cv = c.deep_view();
        let ghost old_vec = r@;
        proof {
            assert(old_r.len() == i);
            assert(old_r == Seq::new(old_vec.len(), |k: int| old_vec[k].deep_view()));
            assert(old_vec.len() == i);
        }
        r.push(c);
        proof {
            let m = spec_merge(listings.deep_view(), usages.deep_view());
            assert forall|j: int| 0 <= j < i + 1 implies r.deep_view()[j] == m.take(i + 1)[j] by {
                assert(r.deep_view()[j] == r@[j].deep_view());
                if j < i {
                    assert(r@[j] == old_vec[j]);
                    assert(old_r[j] == m.take(i as int)[j]);
                    assert(m.take(i as int)[j] == m[j]);
                    assert(m.take(i + 1)[j] == m[j]);
                } else {
                    assert(r@[j].deep_view() == cv);
                    assert(m.take(i + 1)[j] == m[j]);
                }
            }
            assert(r.deep_view() =~= m.take(i + 1));
        }
        i = i + 1;
    }
    proof {
        assert(spec_merge(listings.deep_view(), usages.deep_view()).take(listings@.len() as int)
            =~= spec_merge(listings.deep_view(), usages.deep_view()));
    }
    r
}

/// View of an optional response text.
pub open spec fn opt_text_view(o: Option<&str>) -> Option<Seq<char>> {
    match o {
        Some(s) => Some(s@),
        None => None,
    }
}

/// The container inventory built from the two responses: no listing response
/// means an empty inventory; a missing usage response merges against no usage
/// rows, so every container carries placeholders.
pub open spec fn spec_refresh_containers(
    ps: Option<Seq<char>>,
    stats: Option<Seq<char>>,
) -> Seq<ContainerView> {
    match ps {
        None => Seq::empty(),
        Some(p) => spec_merge(
            spec_container_listings(p),
            match stats {
                None => Seq::empty(),
                Some(t) => spec_container_usages(t),
            },
        ),
    }
}

/// Builds the container inventory from the listing response and the usage
/// response, either of which may be missing when its tool failed.
pub fn refresh_containers(ps_output: Option<&str>, stats_output: Option<&str>) -> (r: Vec<
    Container,
>)
    ensures
        r.deep_view() == spec_refresh_containers(
            opt_text_view(ps_output),
            opt_text_view(stats_output),
        ),
{
    match ps_output {
        None => {
            let r: Vec<Container> = Vec::new();
            proof {
                assert(r.deep_view() =~= Seq::<ContainerView>::empty());
            }
            r
        },
        Some(p) => {
            let listings = parse_container_listings(p);
            let usages = match stats_output {
                None => {
                    let u: Vec<Usage> = Vec::new();
                    proof {
                        assert(u.deep_view() =~= Seq::<UsageView>::empty());
                    }
                    u
                },
                Some(t) => parse_container_usages(t),
            };
            merge_usage(&listings, &usages)
        },
    }
}

/// An image line is well formed when it has at least four pipe-separated
/// columns.
pub open spec fn image_line_ok(line: Seq<char>) -> bool {
    spec_split(line, '|').len() >= 4
}

/// The image row read from a well-formed line.
pub open spec fn spec_image_of(line: Seq<char>) -> ImageView {
    let f = spec_split(line, '|');
    ImageView { repository: f[0], tag: f[1], image_id: f[2], size: f[3] }
}

/// The image rows of a sequence of lines, well-formed lines only, in order.
pub open spec fn spec_parse_images(lines: Seq<Seq<char>>) -> Seq<ImageView>
    decreases lines.len(),
{
    if lines.len() == 0 {
        Seq::empty()
    } else {
        spec_parse_images(lines.drop_last()) + if image_line_ok(lines.last()) {
            seq![spec_image_of(lines.last())]
        } else {
            Seq::empty()
        }
    }
}

/// The image rows of a whole response.
pub open spec fn spec_image_list(s: Seq<char>) -> Seq<ImageView> {
    spec_parse_images(spec_split(s, '\n'))
}

/// Parses the image listing response: one row per line with at least four
/// pipe-separated columns, in response order; other lines are skipped.
pub fn parse_images(s: &str) -> (r: Vec<Image>)
    ensures
        r.deep_view() == spec_image_list(s@),
{
    let lines = split_str(s, '\n');
    let mut r: Vec<Image> = Vec::new();
    let mut i: usize = 0;
    proof {
        assert(lines.deep_view().take(0) =~= Seq::<Seq<char>>::empty());
        assert(r.deep_view() =~= spec_parse_images(lines.deep_view().take(0)));
    }
    while i < lines.len()
        invariant
            i <= lines.len(),
            lines.deep_view() == spec_split(s@, '\n'),
            r.deep_view() == spec_parse_images(lines.deep_view().take(i as int)),
        decreases lines.len() - i,
    {
        let fields = split_str(lines[i].as_str(), '|');
        let ghost old_r = r.deep_view();
        if fields.len() >= 4 {
            r.push(Image {
                repository: fields[0].clone(),
                tag: fields[1].clone(),
                image_id: fields[2].clone(),
                size: fields[3].clone(),
            });
            proof {
                assert(r.deep_view() =~= old_r.push(spec_image_of(lines.deep_view()[i as int])));
            }
        }
        proof {
            let lv = lines.deep_view();
            assert(lv.take(i + 1).drop_last() =~= lv.take(i as int));
            assert(lv.take(i + 1).last() == lv[i as int]);
            assert(r.deep_view() =~= spec_parse_images(lv.take(i + 1)));
        }
        i = i + 1;
    }
    proof {
        assert(lines.deep_view().take(lines@.len() as int) =~= lines.deep_view());
    }
    r
}

/// The image inventory from an optional response: missing means empty.
pub open spec fn spec_refresh_images(output: Option<Seq<char>>) -> Seq<ImageView> {
    match output {
        None => Seq::empty(),
        Some(s) => spec_image_list(s),
    }
}

/// Builds the image inventory, tolerating a failed listing tool.
pub fn refresh_images(output: Option<&str>) -> (r: Vec<Image>)
    ensures
        r.deep_view() == spec_refresh_images(opt_text_view(output)),
{
    match output {
        None => {
            let r: Vec<Image> = Vec::new();
            proof {
                assert(r.deep_view() =~= Seq::<ImageView>::empty());
            }
            r
        },
        Some(s) => parse_images(s),
    }
}

/// A pod line is well formed when it has at least five whitespace-separated
/// columns.
pub open spec fn pod_line_ok(line: Seq<char>) -> bool {
    spec_split_ws(line).len() >= 5
}

/// The pod row read from a well-formed line.
pub open spec fn spec_pod_of(line: Seq<char>) -> PodView {
    let f = spec_split_ws(line);
    PodView { name: f[0], namespace: f[1], status: f[2], restarts: f[3], age: f[4] }
}

/// The pod rows of a sequence of lines, well-formed lines only, in order.
pub open spec fn spec_parse_pods(lines: Seq<Seq<char>>) -> Seq<PodView>
    decreases lines.len(),
{
    if lines.len() == 0 {
        Seq::empty()
    } else {
        spec_parse_pods(lines.drop_last()) + if pod_line_ok(lines.last()) {
            seq![spec_pod_of(lines.last())]
        } else {
            Seq::empty()
        }
    }
}

/// The pod rows of a whole response.
pub open spec fn spec_pod_list(s: Seq<char>) -> Seq<PodView> {
    spec_parse_pods(spec_split(s, '\n'))
}

/// Parses the pod listing response: one row per line with at least five
/// whitespace-separated columns, in response order; other lines are skipped.
pub fn parse_pods(s: &str) -> (r: Vec<Pod>)
    ensures
        r.deep_view() == spec_pod_list(s@),
{
    let lines = split_str(s, '\n');
    let mut r: Vec<Pod> = Vec::new();
    let mut i: usize = 0;
    proof {
        assert(lines.deep_view().take(0) =~= Seq::<Seq<char>>::empty());
        assert(r.deep_view() =~= spec_parse_pods(lines.deep_view().take(0)));
    }
    while i < lines.len()
        invariant
            i <= lines.len(),
            lines.deep_view() == spec_split(s@, '\n'),
            r.deep_view() == spec_parse_pods(lines.deep_view().take(i as int)),
        decreases lines.len() - i,
    {
        let fields = split_whitespace_str(lines[i].as_str());
        let ghost old_r = r.deep_view();
        if fields.len() >= 5 {
            r.push(Pod {
                name: fields[0].clone(),
                namespace: fields[1].clone(),
                status: fields[2].clone(),
                restarts: fields[3].clone(),
                age: fields[4].clone(),
            });
            proof {
                assert(r.deep_view() =~= old_r.push(spec_pod_of(lines.deep_view()[i as int])));
            }
        }
        proof {
            let lv = lines.deep_view();
            assert(lv.take(i + 1).drop_last() =~= lv.take(i as int));
            assert(lv.take(i + 1).last() == lv[i as int]);
            assert(r.deep_view() =~= spec_parse_pods(lv.take(i + 1)));
        }
        i = i + 1;
    }
    proof {
        assert(lines.deep_view().take(lines@.len() as int) =~= lines.deep_view());
    }
    r
}

/// The pod inventory from an optional response: missing means empty.
pub open spec fn spec_refresh_pods(output: Option<Seq<char>>) -> Seq<PodView> {
    match output {
        None => Seq::empty(),
        Some(s) => spec_pod_list(s),
    }
}

/// Builds the pod inventory, tolerating a failed listing tool.
pub fn refresh_pods(output: Option<&str>) -> (r: Vec<Pod>)
    ensures
        r.deep_view() == spec_refresh_pods(opt_text_view(output)),
{
    match output {
        None => {
            let r: Vec<Pod> = Vec::new();
            proof {
                assert(r.deep_view() =~= Seq::<PodView>::empty());
            }
            r
        },
        Some(s) => parse_pods(s),
    }
}

/// Kibibytes in hundredths read from one traffic quantity: a trimmed decimal
/// with a `kB`, `MB` or `GB` suffix, scaled by the binary factor the suffix
/// names; any other form counts as zero.
pub open spec fn spec_net_quantity(s: Seq<char>) -> u64 {
    let t = spec_trim(s);
    if t.len() >= 2 && t[t.len() - 2] == 'k' && t[t.len() - 1] == 'B' {
        spec_centi(t.subrange(0, t.len() - 2))
    } else if t.len() >= 2 && t[t.len() - 2] == 'M' && t[t.len() - 1] == 'B' {
        clamp_u64(spec_centi(t.subrange(0, t.len() - 2)) * 1024)
    } else if t.len() >= 2 && t[t.len() - 2] == 'G' && t[t.len() - 1] == 'B' {
        clamp_u64(spec_centi(t.subrange(0, t.len() - 2)) * 1048576)
    } else {
        0
    }
}

fn net_quantity(s: &str) -> (r: u64)
    ensures
        r == spec_net_quantity(s@),
{
    let t = trim_str(s);
    let t = t.as_str();
    let len = t.unicode_len();
    if len < 2 {
        return 0;
    }
    let penult = t.get_char(len - 2);
    let last = t.get_char(len - 1);
    if last != 'B' {
        return 0;
    }
    let scale: u64 = if penult == 'k' {
        1
    } else if penult == 'M' {
        1024
    } else if penult == 'G' {
        1048576
    } else {
        return 0;
    };
    let number = t.substring_char(0, len - 2);
    let centi = parse_centi(number);
    proof {
        assert((centi as u128) * (scale as u128) <= (u64::MAX as u128) * 1048576)
            by (nonlinear_arith)
            requires
                centi as u128 <= u64::MAX as u128,
                scale as u128 <= 1048576,
        ;
    }
    let w: u128 = (centi as u128) * (scale as u128);
    proof {
        let tv = spec_trim(s@);
        assert(t@ == tv);
        assert(tv.len() == len);
        assert(number@ == tv.subrange(0, tv.len() - 2));
        assert(centi == spec_centi(tv.subrange(0, tv.len() - 2)));
        assert(w == centi * scale);
        if penult == 'k' {
            assert(spec_net_quantity(s@) == spec_centi(tv.subrange(0, tv.len() - 2)));
            assert(w == centi);
        } else if penult == 'M' {
            assert(spec_net_quantity(s@) == clamp_u64(
                spec_centi(tv.subrange(0, tv.len() - 2)) * 1024,
            ));
        } else {
            assert(spec_net_quantity(s@) == clamp_u64(
                spec_centi(tv.subrange(0, tv.len() - 2)) * 1048576,
            ));
        }
    }
    if w > u64::MAX as u128 {
        u64::MAX
    } else {
        w as u64
    }
}

/// The two traffic quantities of a `received / transmitted` column, in
/// hundredths of a kibibyte. A column that is not exactly two `/`-separated
/// quantities counts as zero traffic.
pub open spec fn spec_parse_net_io(s: Seq<char>) -> (u64, u64) {
    let parts = spec_split(s, '/');
    if parts.len() != 2 {
        (0u64, 0u64)
    } else {
        (spec_net_quantity(parts[0]), spec_net_quantity(parts[1]))
    }
}

/// Splits a traffic column into its received and transmitted quantities.
pub fn parse_net_io(s: &str) -> (r: (u64, u64))
    ensures
        r == spec_parse_net_io(s@),
{
    let parts = split_str(s, '/');
    if parts.len() != 2 {
        (0, 0)
    } else {
        proof {
            assert(parts.deep_view()[0] == parts@[0]@);
            assert(parts.deep_view()[1] == parts@[1]@);
        }
        (net_quantity(parts[0].as_str()), net_quantity(parts[1].as_str()))
    }
}

} // verus!
