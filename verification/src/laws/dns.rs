//! The resolver file.

use vstd::prelude::*;

use crate::connection::ip::DnsConfigView;
use crate::laws::addresses;
use crate::linux::dns;
use crate::net::IpAddr;
use crate::net_text;
use crate::text;

verus! {

/// What the lines say that begin with a keyword, in order: each without the keyword.
pub open spec fn operands(found: Seq<Seq<char>>, keyword: Seq<char>) -> Seq<Seq<char>>
    decreases found.len(),
{
    if found.len() == 0 {
        Seq::empty()
    } else {
        let before = operands(found.drop_last(), keyword);
        let line = found.last();
        if line.len() >= keyword.len() && line.take(keyword.len() as int) == keyword {
            before.push(line.skip(keyword.len() as int))
        } else {
            before
        }
    }
}

/// Texts that each stand on one line.
pub open spec fn unbroken(texts: Seq<Seq<char>>) -> bool {
    forall|i: int| 0 <= i < texts.len() ==> !(#[trigger] texts[i]).contains('\n')
}

/// Texts that stand on one line and are told apart by the spaces between them.
pub open spec fn single_words(texts: Seq<Seq<char>>) -> bool {
    &&& unbroken(texts)
    &&& forall|i: int| 0 <= i < texts.len() ==> !(#[trigger] texts[i]).contains(' ')
    &&& texts.len() > 0 && texts.last().len() > 0 ==> texts.last().last() != '\r'
}

proof fn lemma_operands_cat(a: Seq<Seq<char>>, b: Seq<Seq<char>>, keyword: Seq<char>)
    ensures
        operands(a + b, keyword) == operands(a, keyword) + operands(b, keyword),
    decreases b.len(),
{
    if b.len() == 0 {
        assert(a + b =~= a);
        assert(operands(a, keyword) + operands(b, keyword) =~= operands(a, keyword));
    } else {
        lemma_operands_cat(a, b.drop_last(), keyword);
        assert((a + b).drop_last() =~= a + b.drop_last());
        assert((a + b).last() == b.last());
        assert(operands(a + b, keyword) =~= operands(a, keyword) + operands(b, keyword));
    }
}

proof fn lemma_operand_of_line(line: Seq<char>, keyword: Seq<char>)
    ensures
        operands(seq![line], keyword) == if line.len() >= keyword.len() && line.take(
            keyword.len() as int,
        ) == keyword {
            seq![line.skip(keyword.len() as int)]
        } else {
            Seq::empty()
        },
{
    let one = seq![line];
    assert(one.drop_last() =~= Seq::<Seq<char>>::empty());
    assert(operands(one.drop_last(), keyword) =~= Seq::<Seq<char>>::empty());
    assert(operands(one, keyword) =~= if line.len() >= keyword.len() && line.take(
        keyword.len() as int,
    ) == keyword {
        seq![line.skip(keyword.len() as int)]
    } else {
        Seq::empty()
    });
}

/// A text that begins with a line and a line feed has that line first, without a
/// carriage return at its end, and then the lines of what follows.
pub proof fn lemma_first_line(line: Seq<char>, rest: Seq<char>)
    requires
        !line.contains('\n'),
    ensures
        text::lines(line + "\n"@ + rest) == seq![text::without_return(line)] + text::lines(rest),
{
    reveal_strlit("\n");
    let whole = line + "\n"@ + rest;
    let k = line.len() as int;
    assert forall|i: int| 0 <= i < k implies #[trigger] whole[i] != '\n' by {
        assert(whole[i] == line[i]);
        assert(line.contains(line[i]));
    }
    assert(whole[k] == '\n');
    text::lemma_cut_is(whole, '\n', k);
    assert(whole.take(k) =~= line);
    assert(whole.skip(k + 1) =~= rest);
}

/// The line of a name server.
pub open spec fn server_line(server: IpAddr) -> Seq<char> {
    "nameserver "@ + server.text()
}

proof fn lemma_server_line(server: IpAddr)
    ensures
        !server_line(server).contains('\n'),
        text::without_return(server_line(server)) == server_line(server),
        operands(seq![server_line(server)], "nameserver "@) == seq![server.text()],
        operands(seq![server_line(server)], "search "@) == Seq::<Seq<char>>::empty(),
{
    reveal_strlit("nameserver ");
    reveal_strlit("search ");
    addresses::lemma_address_text_is_plain(server);
    let line = server_line(server);
    let s = server.text();
    assert forall|i: int| 0 <= i < line.len() implies line[i] != '\n' && line[i] != '\r' by {
        if i >= 11 {
            assert(line[i] == s[i - 11]);
            assert(addresses::is_mark(s[i - 11]));
        }
    }
    lemma_operand_of_line(line, "nameserver "@);
    lemma_operand_of_line(line, "search "@);
    assert(line.take(11) =~= "nameserver "@);
    assert(line.skip(11) =~= s);
    assert(line[0] == 'n');
    assert(line.take(7)[0] == 'n');
    assert("search "@[0] == 's');
}

proof fn lemma_server_lines_from_front(servers: Seq<IpAddr>)
    requires
        servers.len() > 0,
    ensures
        dns::server_lines(servers) == server_line(servers[0]) + "\n"@ + dns::server_lines(
            servers.skip(1),
        ),
    decreases servers.len(),
{
    let rest = servers.skip(1);
    if servers.len() == 1 {
        assert(servers.drop_last() =~= Seq::<IpAddr>::empty());
        assert(rest =~= Seq::<IpAddr>::empty());
        assert(dns::server_lines(servers) =~= server_line(servers[0]) + "\n"@ + dns::server_lines(
            rest,
        ));
    } else {
        let most = servers.drop_last();
        lemma_server_lines_from_front(most);
        assert(most.skip(1) =~= rest.drop_last());
        assert(most[0] == servers[0]);
        assert(rest.last() == servers.last());
        assert(dns::server_lines(servers) =~= server_line(servers[0]) + "\n"@ + dns::server_lines(
            rest,
        ));
    }
}

/// The lines that name servers.
pub open spec fn name_lines(servers: Seq<IpAddr>) -> Seq<Seq<char>> {
    servers.map_values(|server: IpAddr| server_line(server))
}

proof fn lemma_lines_of_servers(servers: Seq<IpAddr>)
    ensures
        text::lines(dns::server_lines(servers)) == name_lines(servers),
        operands(name_lines(servers), "nameserver "@) == servers.map_values(
            |server: IpAddr| server.text(),
        ),
        operands(name_lines(servers), "search "@) == Seq::<Seq<char>>::empty(),
    decreases servers.len(),
{
    let texts = servers.map_values(|server: IpAddr| server.text());
    if servers.len() == 0 {
        assert(name_lines(servers) =~= Seq::<Seq<char>>::empty());
        assert(texts =~= Seq::<Seq<char>>::empty());
        assert(text::lines(dns::server_lines(servers)) =~= Seq::<Seq<char>>::empty());
    } else {
        let rest = servers.skip(1);
        let first = server_line(servers[0]);
        lemma_server_lines_from_front(servers);
        lemma_server_line(servers[0]);
        lemma_lines_of_servers(rest);
        lemma_first_line(first, dns::server_lines(rest));
        assert(name_lines(servers) =~= seq![first] + name_lines(rest));
        lemma_operands_cat(seq![first], name_lines(rest), "nameserver "@);
        lemma_operands_cat(seq![first], name_lines(rest), "search "@);
        assert(texts =~= seq![servers[0].text()] + rest.map_values(
            |server: IpAddr| server.text(),
        ));
        assert(operands(name_lines(servers), "search "@) =~= Seq::<Seq<char>>::empty());
    }
}

proof fn lemma_spaced_is_joined(domains: Seq<Seq<char>>)
    ensures
        dns::spaced(domains) == text::join(domains, ' '),
    decreases domains.len(),
{
    if domains.len() > 1 {
        let most = domains.drop_last();
        lemma_spaced_is_joined(most);
        lemma_join_push(most, domains.last(), ' ');
        assert(most.push(domains.last()) =~= domains);
    }
}

pub(crate) proof fn lemma_join_push(pieces: Seq<Seq<char>>, piece: Seq<char>, c: char)
    requires
        pieces.len() > 0,
    ensures
        text::join(pieces.push(piece), c) == text::join(pieces, c) + seq![c] + piece,
    decreases pieces.len(),
{
    let all = pieces.push(piece);
    if pieces.len() == 1 {
        assert(all.skip(1) =~= seq![piece]);
        assert(text::join(all.skip(1), c) == piece);
        assert(text::join(all, c) =~= text::join(pieces, c) + seq![c] + piece);
    } else {
        lemma_join_push(pieces.skip(1), piece, c);
        assert(all.skip(1) =~= pieces.skip(1).push(piece));
        assert(text::join(all, c) =~= text::join(pieces, c) + seq![c] + piece);
    }
}

proof fn lemma_spaced_without(domains: Seq<Seq<char>>, c: char)
    requires
        c != ' ',
        forall|i: int| 0 <= i < domains.len() ==> !(#[trigger] domains[i]).contains(c),
    ensures
        !dns::spaced(domains).contains(c),
    decreases domains.len(),
{
    let all = dns::spaced(domains);
    if domains.len() == 1 {
        assert(!domains[0].contains(c));
    } else if domains.len() > 1 {
        let most = domains.drop_last();
        assert forall|i: int| 0 <= i < most.len() implies !(#[trigger] most[i]).contains(c) by {
            assert(most[i] == domains[i]);
        }
        lemma_spaced_without(most, c);
        let head = dns::spaced(most);
        let last = domains[domains.len() - 1];
        assert(!last.contains(c));
        assert(all == head + seq![' '] + last);
        assert forall|i: int| 0 <= i < all.len() implies all[i] != c by {
            if i < head.len() {
                assert(all[i] == head[i]);
                assert(head.contains(head[i]));
            } else if i > head.len() {
                assert(all[i] == last[i - head.len() - 1]);
                assert(last.contains(last[i - head.len() - 1]));
            }
        }
    }
}

/// Reading a written configuration back gives the configuration. Its lines are one
/// that lists the search domains, if there are any, and one for each server, in
/// order: none is missing and there are no others.
pub proof fn lemma_written_configuration_reads_back(config: DnsConfigView)
    requires
        unbroken(config.search_domains),
    ensures
        ({
            let found = text::lines(dns::config_text(config));
            let searched: int = if config.search_domains.len() == 0 {
                0
            } else {
                1
            };
            &&& found.len() == searched + config.servers.len()
            &&& operands(found, "nameserver "@).len() == config.servers.len()
            &&& forall|i: int|
                0 <= i < config.servers.len() ==> {
                    &&& #[trigger] operands(found, "nameserver "@)[i] == config.servers[i].text()
                    &&& net_text::ip_of(operands(found, "nameserver "@)[i]) == Some(
                        config.servers[i],
                    )
                }
            &&& operands(found, "search "@).len() == searched
            &&& config.search_domains.len() > 0 && single_words(config.search_domains)
                ==> text::split(operands(found, "search "@)[0], ' ') == config.search_domains
        }),
{
    reveal_strlit("search ");
    reveal_strlit("nameserver ");
    let servers = config.servers;
    let domains = config.search_domains;
    lemma_lines_of_servers(servers);
    let found = text::lines(dns::config_text(config));
    if domains.len() == 0 {
        assert(dns::config_text(config) =~= dns::server_lines(servers));
    } else {
        lemma_search_line(domains);
        let line = "search "@ + dns::spaced(domains);
        let shown = text::without_return(line);
        lemma_first_line(line, dns::server_lines(servers));
        assert(found == seq![shown] + name_lines(servers));
        lemma_operands_cat(seq![shown], name_lines(servers), "nameserver "@);
        lemma_operands_cat(seq![shown], name_lines(servers), "search "@);
    }
    assert forall|i: int| 0 <= i < servers.len() implies {
        &&& #[trigger] operands(found, "nameserver "@)[i] == servers[i].text()
        &&& net_text::ip_of(operands(found, "nameserver "@)[i]) == Some(servers[i])
    } by {
        net_text::lemma_ip_of_text(servers[i]);
    }
}

proof fn lemma_search_line(domains: Seq<Seq<char>>)
    requires
        domains.len() > 0,
        unbroken(domains),
    ensures
        ({
            let line = "search "@ + dns::spaced(domains);
            let shown = text::without_return(line);
            &&& !line.contains('\n')
            &&& operands(seq![shown], "nameserver "@) == Seq::<Seq<char>>::empty()
            &&& operands(seq![shown], "search "@).len() == 1
            &&& single_words(domains) ==> text::split(operands(seq![shown], "search "@)[0], ' ')
                == domains
        }),
{
    reveal_strlit("search ");
    reveal_strlit("nameserver ");
    lemma_spaced_without(domains, '\n');
    let s = dns::spaced(domains);
    let line = "search "@ + s;
    let shown = text::without_return(line);
    assert forall|i: int| 0 <= i < line.len() implies line[i] != '\n' by {
        if i >= 7 {
            assert(line[i] == s[i - 7]);
            assert(s.contains(s[i - 7]));
        }
    }
    assert(line[6] == ' ');
    assert(shown.take(7) =~= "search "@);
    lemma_operand_of_line(shown, "nameserver "@);
    lemma_operand_of_line(shown, "search "@);
    assert(shown[0] == 's');
    if shown.len() >= 11 {
        assert(shown.take(11)[0] == 's');
        assert("nameserver "@[0] == 'n');
    }
    if single_words(domains) {
        let last = domains[domains.len() - 1];
        assert(line.last() != '\r') by {
            if last.len() > 0 {
                assert(s.last() == last.last());
                assert(line.last() == s.last());
            } else if domains.len() == 1 {
                assert(s.len() == 0);
            } else {
                assert(s.last() == ' ');
                assert(line.last() == s.last());
            }
        }
        assert(shown == line);
        assert(shown.skip(7) =~= s);
        lemma_spaced_is_joined(domains);
        text::lemma_split_join(domains, ' ');
    }
}

/// The file that an owner writes has a first line that names the owner, and then
/// the lines of the configuration.
pub proof fn lemma_written_file_names_owner_first(owner: Seq<char>, config: DnsConfigView)
    requires
        owner.len() > 0,
        !owner.contains('\n'),
        owner.last() != '\r',
    ensures
        ({
            let found = text::lines(dns::marked(owner, config));
            &&& found.len() > 0
            &&& found[0] == "# nmd-owned owner="@ + owner
            &&& found.skip(1) == text::lines(dns::config_text(config))
            &&& operands(found, "nameserver "@) == operands(
                text::lines(dns::config_text(config)),
                "nameserver "@,
            )
            &&& operands(found, "search "@) == operands(
                text::lines(dns::config_text(config)),
                "search "@,
            )
        }),
{
    reveal_strlit("# nmd-owned owner=");
    reveal_strlit("nameserver ");
    reveal_strlit("search ");
    let line = "# nmd-owned owner="@ + owner;
    assert forall|i: int| 0 <= i < line.len() implies line[i] != '\n' by {
        if i >= 18 {
            assert(line[i] == owner[i - 18]);
            assert(owner.contains(owner[i - 18]));
        }
    }
    assert(line.last() == owner.last());
    lemma_first_line(line, dns::config_text(config));
    let rest = text::lines(dns::config_text(config));
    let found = text::lines(dns::marked(owner, config));
    assert(found == seq![line] + rest);
    assert(found.skip(1) =~= rest);
    lemma_operands_cat(seq![line], rest, "nameserver "@);
    lemma_operands_cat(seq![line], rest, "search "@);
    lemma_operand_of_line(line, "nameserver "@);
    lemma_operand_of_line(line, "search "@);
    assert(line[0] == '#');
    assert(line.take(11)[0] == '#');
    assert(line.take(7)[0] == '#');
    assert(operands(found, "nameserver "@) =~= operands(rest, "nameserver "@));
    assert(operands(found, "search "@) =~= operands(rest, "search "@));
}

/// Whether a line is the mark of an owner.
pub open spec fn is_mark(line: Seq<char>) -> bool {
    line.len() >= 18 && line.take(18) == "# nmd-owned owner="@
}

/// A file may be written when there is none, when nothing stands in it, or when its
/// first mark names the writer. The owner is what stands behind that mark, without
/// white space around it.
pub proof fn lemma_who_may_write(owner: Seq<char>, content: Seq<char>, k: int)
    requires
        0 <= k <= text::lines(content).len(),
        forall|i: int| 0 <= i < k ==> !is_mark(#[trigger] text::lines(content)[i]),
        k < text::lines(content).len() ==> is_mark(text::lines(content)[k]),
    ensures
        dns::may_write(owner, None),
        ({
            let found = text::lines(content);
            let named = text::trimmed(found[k].skip(18));
            if k < found.len() && named.len() > 0 {
                &&& dns::owner_in(content) == Some(named)
                &&& dns::may_write(owner, Some(content)) <==> named == owner
            } else {
                &&& dns::owner_in(content) is None
                &&& dns::may_write(owner, Some(content)) <==> forall|i: int|
                    0 <= i < found.len() ==> text::trimmed(#[trigger] found[i]).len() == 0
            }
        }),
{
    lemma_first_mark(text::lines(content), k);
}

proof fn lemma_first_mark(found: Seq<Seq<char>>, k: int)
    requires
        0 <= k <= found.len(),
        forall|i: int| 0 <= i < k ==> !is_mark(#[trigger] found[i]),
        k < found.len() ==> is_mark(found[k]),
    ensures
        dns::owner_among(found) == if k < found.len() && text::trimmed(found[k].skip(18)).len() > 0 {
            Some(text::trimmed(found[k].skip(18)))
        } else {
            None
        },
    decreases k,
{
    reveal_strlit("# nmd-owned owner=");
    if k > 0 {
        let more = found.skip(1);
        assert(!is_mark(found[0]));
        assert forall|i: int| 0 <= i < k - 1 implies !is_mark(#[trigger] more[i]) by {
            assert(more[i] == found[i + 1]);
        }
        lemma_first_mark(more, k - 1);
    }
}

} // verus!
